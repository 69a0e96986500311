//! The collision resolver: pairs projectiles against targets with the strict
//! AABB overlap test, despawns what was consumed, adds the alien's point
//! value to the score, decrements lives with a floor of zero, and requests a
//! restart when the cannon is hit with no lives left.

use vstd::prelude::*;
use crate::entities::{
    alien_value, alien_value_spec, Alien, AlienKind, Cannon, Projectile, ProjectileKind, Signal,
};
use crate::formation::{alien_pos_bounded, aliens_bounded};
use crate::geometry::{
    alien_box_spec, boxes_overlap, boxes_overlap_at, cannon_box_spec, get_alien_bounding_box,
    get_cannon_bounding_box, get_projectile_bounding_box, projectile_box_spec,
};
use crate::projectiles::{cannon_pos_bounded, projectile_pos_bounded, projectiles_bounded};
use crate::store::Store;

verus! {

/// The projectile's box overlaps the alien's box, strictly on both axes.
pub open spec fn projectile_hits_alien(p: Projectile, a: Alien) -> bool {
    boxes_overlap(
        p.x as int,
        p.y as int,
        projectile_box_spec(p.kind),
        a.x as int,
        a.y as int,
        alien_box_spec(a.kind),
    )
}

/// The projectile's box overlaps the cannon's box, centered at the given
/// cannon position, strictly on both axes.
pub open spec fn projectile_hits_cannon(p: Projectile, cx: int, cy: int) -> bool {
    boxes_overlap(p.x as int, p.y as int, projectile_box_spec(p.kind), cx, cy, cannon_box_spec())
}

/// Index of the first alien, in iteration order, the projectile overlaps;
/// `None` when it overlaps none.
pub open spec fn first_hit(p: Projectile, aliens: Seq<Alien>) -> Option<int>
    decreases aliens.len(),
{
    if aliens.len() == 0 {
        None
    } else if projectile_hits_alien(p, aliens[0]) {
        Some(0int)
    } else {
        match first_hit(p, aliens.drop_first()) {
            Some(j) => Some(j + 1),
            None => None,
        }
    }
}

/// Total point value of a set of aliens, in iteration order.
pub open spec fn value_sum(s: Seq<Alien>) -> nat
    decreases s.len(),
{
    if s.len() == 0 {
        0
    } else {
        alien_value_spec(s[0].kind) + value_sum(s.drop_first())
    }
}

/// State the resolver threads through the projectiles: the surviving aliens,
/// the cannon's lives and score, the HUD signals emitted so far, the number
/// of restart requests, and the projectiles that survived.
pub ghost struct ResolveState {
    pub aliens: Seq<Alien>,
    pub lives: nat,
    pub score: nat,
    pub huds: Seq<Signal>,
    pub restarts: nat,
    pub kept: Seq<Projectile>,
}

/// The resolver's starting state: nothing emitted, nothing kept yet.
pub open spec fn init_resolve_state(aliens: Seq<Alien>, lives: nat, score: nat) -> ResolveState {
    ResolveState { aliens, lives, score, huds: Seq::empty(), restarts: 0, kept: Seq::empty() }
}

/// Resolves one projectile. A cannon ball consumes the first alien it
/// overlaps, scores it, and is itself consumed; an alien ball that overlaps
/// the cannon is consumed, costing a life when one is left and requesting a
/// restart otherwise; a projectile that hits nothing survives.
pub open spec fn step_projectile(st: ResolveState, p: Projectile, cx: int, cy: int) -> ResolveState {
    match p.kind {
        ProjectileKind::CannonBall => {
            match first_hit(p, st.aliens) {
                Some(j) => (ResolveState {
                    aliens: st.aliens.remove(j),
                    score: st.score + alien_value_spec(st.aliens[j].kind),
                    huds: st.huds.push(
                        Signal::ScoreChanged(
                            ((st.score + alien_value_spec(st.aliens[j].kind)) as u64),
                        ),
                    ),
                    ..st
                }),
                None => (ResolveState { kept: st.kept.push(p), ..st }),
            }
        },
        ProjectileKind::AlienBall => {
            if projectile_hits_cannon(p, cx, cy) {
                if st.lives > 0 {
                    ResolveState {
                        lives: (st.lives - 1) as nat,
                        huds: st.huds.push(Signal::LivesChanged(((st.lives - 1) as u32))),
                        ..st
                    }
                } else {
                    ResolveState { restarts: st.restarts + 1, ..st }
                }
            } else {
                ResolveState { kept: st.kept.push(p), ..st }
            }
        },
    }
}

/// Resolves the projectiles front to back, each against the aliens and lives
/// that the earlier ones left.
pub open spec fn resolve_seq(st: ResolveState, ps: Seq<Projectile>, cx: int, cy: int) -> ResolveState
    decreases ps.len(),
{
    if ps.len() == 0 {
        st
    } else {
        resolve_seq(step_projectile(st, ps[0], cx, cy), ps.drop_first(), cx, cy)
    }
}

/// Two alien sequences of the same kinds, in order, carry the same total
/// value; in particular, movement never changes it.
pub proof fn lemma_value_sum_same_kinds(a: Seq<Alien>, b: Seq<Alien>)
    requires
        a.len() == b.len(),
        forall|i: int| 0 <= i < a.len() ==> (#[trigger] a[i]).kind == b[i].kind,
    ensures
        value_sum(a) == value_sum(b),
    decreases a.len(),
{
    if a.len() > 0 {
        assert(forall|i: int|
            0 <= i < a.drop_first().len() ==> (#[trigger] a.drop_first()[i]).kind
                == b.drop_first()[i].kind);
        lemma_value_sum_same_kinds(a.drop_first(), b.drop_first());
    }
}

/// Removing one alien removes exactly its value from the total.
pub proof fn lemma_value_sum_remove(s: Seq<Alien>, j: int)
    requires
        0 <= j < s.len(),
    ensures
        value_sum(s) == value_sum(s.remove(j)) + alien_value_spec(s[j].kind),
    decreases s.len(),
{
    if j == 0 {
        assert(s.remove(0) =~= s.drop_first());
    } else {
        lemma_value_sum_remove(s.drop_first(), j - 1);
        assert(s.remove(j).drop_first() =~= s.drop_first().remove(j - 1));
        assert(s.remove(j)[0] == s[0]);
        assert(s.remove(j).len() > 0);
    }
}

/// Finds the first alien, in iteration order, the projectile overlaps.
fn find_first_hit(p: Projectile, aliens: &Vec<Alien>) -> (r: Option<usize>)
    requires
        projectile_pos_bounded(p),
        aliens_bounded(aliens@),
    ensures
        match r {
            Some(j) => j < aliens@.len() && first_hit(p, aliens@) == Some(j as int),
            None => first_hit(p, aliens@) is None,
        },
{
    let n = aliens.len();
    let mut k: usize = 0;
    while k < n
        invariant
            n == aliens@.len(),
            k <= n,
            projectile_pos_bounded(p),
            aliens_bounded(aliens@),
            forall|m: int| 0 <= m < k ==> !projectile_hits_alien(p, #[trigger] aliens@[m]),
        decreases n - k,
    {
        let a = aliens[k];
        let hit = boxes_overlap_at(
            p.x,
            p.y,
            get_projectile_bounding_box(p.kind),
            a.x,
            a.y,
            get_alien_bounding_box(a.kind),
        );
        if hit {
            proof {
                lemma_first_hit_skip(p, aliens@, k as int);
                assert(aliens@.skip(k as int)[0] == aliens@[k as int]);
            }
            return Some(k);
        }
        k += 1;
    }
    proof {
        lemma_first_hit_skip(p, aliens@, n as int);
        assert(aliens@.skip(n as int) =~= Seq::<Alien>::empty());
    }
    None
}

/// When the first `k` aliens are clear of the projectile, the first hit is
/// the first hit among the rest, shifted by `k`.
proof fn lemma_first_hit_skip(p: Projectile, s: Seq<Alien>, k: int)
    requires
        0 <= k <= s.len(),
        forall|m: int| 0 <= m < k ==> !projectile_hits_alien(p, #[trigger] s[m]),
    ensures
        first_hit(p, s) == match first_hit(p, s.skip(k)) {
            Some(j) => Some(j + k),
            None => None::<int>,
        },
    decreases k,
{
    if k == 0 {
        assert(s.skip(0) =~= s);
    } else {
        assert(!projectile_hits_alien(p, s[0]));
        lemma_first_hit_skip(p, s.drop_first(), k - 1);
        assert(s.drop_first().skip(k - 1) =~= s.skip(k));
        assert(s.len() > 0);
    }
}

/// Resolves every live projectile against the live targets, per
/// `resolve_seq` from the store's current entities: despawns what was
/// consumed, updates the cannon's score and lives, appends one HUD signal per
/// mutation, and returns how many restarts were requested.
pub fn check_collisions(store: &mut Store, huds: &mut Vec<Signal>) -> (restarts: usize)
    requires
        old(store).cannon is Some,
        aliens_bounded(old(store).aliens@),
        projectiles_bounded(old(store).projectiles@),
        cannon_pos_bounded(old(store).cannon.unwrap()),
        old(store).cannon.unwrap().score + value_sum(old(store).aliens@) <= u64::MAX,
    ensures
        ({
            let c0 = old(store).cannon.unwrap();
            let r = resolve_seq(
                init_resolve_state(old(store).aliens@, c0.lives as nat, c0.score as nat),
                old(store).projectiles@,
                c0.x as int,
                c0.y as int,
            );
            &&& final(store).aliens@ == r.aliens
            &&& final(store).projectiles@ == r.kept
            &&& final(store).cannon == Some(
                Cannon { x: c0.x, y: c0.y, lives: (r.lives as u32), score: (r.score as u64) },
            )
            &&& final(store).next_id == old(store).next_id
            &&& final(huds)@ == old(huds)@ + r.huds
            &&& restarts as nat == r.restarts
            &&& aliens_bounded(final(store).aliens@)
            &&& projectiles_bounded(final(store).projectiles@)
        }),
{
    let c0 = match store.cannon {
        Some(c) => c,
        None => unreached(),
    };
    let ghost aliens0 = store.aliens@;
    let ghost ps0 = store.projectiles@;
    let ghost huds0 = huds@;
    let ghost cx = c0.x as int;
    let ghost cy = c0.y as int;
    let ghost st0 = init_resolve_state(aliens0, c0.lives as nat, c0.score as nat);
    let ghost mut gst = st0;

    let mut kept: Vec<Projectile> = Vec::new();
    let mut lives: u32 = c0.lives;
    let mut score: u64 = c0.score;
    let mut restarts: usize = 0;
    let n = store.projectiles.len();
    let mut i: usize = 0;
    proof {
        assert(ps0.skip(0) =~= ps0);
        assert(huds@ =~= huds0 + gst.huds);
    }
    while i < n
        invariant
            c0 == old(store).cannon.unwrap(),
            cx == c0.x as int,
            cy == c0.y as int,
            aliens0 == old(store).aliens@,
            ps0 == old(store).projectiles@,
            huds0 == old(huds)@,
            st0 == init_resolve_state(aliens0, c0.lives as nat, c0.score as nat),
            store.cannon == Some(c0),
            store.next_id == old(store).next_id,
            store.projectiles@ == ps0,
            n == ps0.len(),
            i <= n,
            projectiles_bounded(ps0),
            cannon_pos_bounded(c0),
            gst.aliens == store.aliens@,
            gst.lives == lives as nat,
            gst.score == score as nat,
            gst.kept == kept@,
            gst.restarts == restarts as nat,
            restarts <= i,
            huds@ == huds0 + gst.huds,
            aliens_bounded(store.aliens@),
            projectiles_bounded(kept@),
            score + value_sum(store.aliens@) == c0.score + value_sum(aliens0),
            c0.score + value_sum(aliens0) <= u64::MAX,
            resolve_seq(gst, ps0.skip(i as int), cx, cy) == resolve_seq(st0, ps0, cx, cy),
        decreases n - i,
    {
        let p = store.projectiles[i];
        let ghost gst_before = gst;
        proof {
            assert(ps0.skip(i as int)[0] == ps0[i as int]);
            assert(ps0.skip(i as int).drop_first() =~= ps0.skip(i as int + 1));
            assert(resolve_seq(gst, ps0.skip(i as int), cx, cy) == resolve_seq(
                step_projectile(gst, p, cx, cy),
                ps0.skip(i as int + 1),
                cx,
                cy,
            ));
            gst = step_projectile(gst, p, cx, cy);
            assert(projectile_pos_bounded(ps0[i as int]));
        }
        match p.kind {
            ProjectileKind::CannonBall => {
                match find_first_hit(p, &store.aliens) {
                    Some(j) => {
                        let a = store.aliens[j];
                        let v = alien_value(a.kind);
                        proof {
                            lemma_value_sum_remove(store.aliens@, j as int);
                        }
                        store.aliens.remove(j);
                        score = score + v;
                        huds.push(Signal::ScoreChanged(score));
                        proof {
                            assert forall|m: int|
                                0 <= m < store.aliens@.len() implies alien_pos_bounded(
                                #[trigger] store.aliens@[m],
                            ) by {
                                assert(store.aliens@[m] == if m < j as int {
                                    gst_before.aliens[m]
                                } else {
                                    gst_before.aliens[m + 1]
                                });
                            }
                            assert(huds@ =~= huds0 + gst.huds);
                        }
                    },
                    None => {
                        kept.push(p);
                    },
                }
            },
            ProjectileKind::AlienBall => {
                let hit = boxes_overlap_at(
                    p.x,
                    p.y,
                    get_projectile_bounding_box(p.kind),
                    c0.x,
                    c0.y,
                    get_cannon_bounding_box(),
                );
                if hit {
                    if lives > 0 {
                        lives = lives - 1;
                        huds.push(Signal::LivesChanged(lives));
                        proof {
                            assert(huds@ =~= huds0 + gst.huds);
                        }
                    } else {
                        restarts = restarts + 1;
                    }
                } else {
                    kept.push(p);
                }
            },
        }
        i += 1;
    }
    proof {
        assert(ps0.skip(n as int) =~= Seq::<Projectile>::empty());
        assert(resolve_seq(gst, ps0.skip(n as int), cx, cy) == gst);
    }
    store.projectiles = kept;
    store.cannon = Some(Cannon { x: c0.x, y: c0.y, lives, score });
    restarts
}

/// How many projectiles of the given kind a sequence holds.
pub open spec fn count_kind(ps: Seq<Projectile>, k: ProjectileKind) -> nat
    decreases ps.len(),
{
    if ps.len() == 0 {
        0
    } else {
        (if ps[0].kind == k {
            1nat
        } else {
            0nat
        }) + count_kind(ps.drop_first(), k)
    }
}

/// How many score-changed signals a sequence holds.
pub open spec fn count_score_signals(hs: Seq<Signal>) -> nat
    decreases hs.len(),
{
    if hs.len() == 0 {
        0
    } else {
        (if hs[0] is ScoreChanged {
            1nat
        } else {
            0nat
        }) + count_score_signals(hs.drop_first())
    }
}

/// How many lives-changed signals a sequence holds.
pub open spec fn count_lives_signals(hs: Seq<Signal>) -> nat
    decreases hs.len(),
{
    if hs.len() == 0 {
        0
    } else {
        (if hs[0] is LivesChanged {
            1nat
        } else {
            0nat
        }) + count_lives_signals(hs.drop_first())
    }
}

proof fn lemma_count_kind_push(ps: Seq<Projectile>, x: Projectile, k: ProjectileKind)
    ensures
        count_kind(ps.push(x), k) == count_kind(ps, k) + (if x.kind == k {
            1nat
        } else {
            0nat
        }),
    decreases ps.len(),
{
    if ps.len() == 0 {
        assert(ps.push(x)[0] == x);
        assert(ps.push(x).drop_first() =~= Seq::<Projectile>::empty());
        assert(count_kind(Seq::<Projectile>::empty(), k) == 0);
    } else {
        assert(ps.push(x)[0] == ps[0]);
        assert(ps.push(x).drop_first() =~= ps.drop_first().push(x));
        lemma_count_kind_push(ps.drop_first(), x, k);
    }
}

proof fn lemma_count_score_push(hs: Seq<Signal>, x: Signal)
    ensures
        count_score_signals(hs.push(x)) == count_score_signals(hs) + (if x is ScoreChanged {
            1nat
        } else {
            0nat
        }),
    decreases hs.len(),
{
    if hs.len() == 0 {
        assert(hs.push(x)[0] == x);
        assert(hs.push(x).drop_first() =~= Seq::<Signal>::empty());
        assert(count_score_signals(Seq::<Signal>::empty()) == 0);
    } else {
        assert(hs.push(x)[0] == hs[0]);
        assert(hs.push(x).drop_first() =~= hs.drop_first().push(x));
        lemma_count_score_push(hs.drop_first(), x);
    }
}

proof fn lemma_count_lives_push(hs: Seq<Signal>, x: Signal)
    ensures
        count_lives_signals(hs.push(x)) == count_lives_signals(hs) + (if x is LivesChanged {
            1nat
        } else {
            0nat
        }),
    decreases hs.len(),
{
    if hs.len() == 0 {
        assert(hs.push(x)[0] == x);
        assert(hs.push(x).drop_first() =~= Seq::<Signal>::empty());
        assert(count_lives_signals(Seq::<Signal>::empty()) == 0);
    } else {
        assert(hs.push(x)[0] == hs[0]);
        assert(hs.push(x).drop_first() =~= hs.drop_first().push(x));
        lemma_count_lives_push(hs.drop_first(), x);
    }
}

/// A first hit names an alien of the sequence that the projectile overlaps.
pub proof fn lemma_first_hit_in_range(p: Projectile, s: Seq<Alien>)
    ensures
        match first_hit(p, s) {
            Some(j) => 0 <= j < s.len() && projectile_hits_alien(p, s[j]),
            None => forall|m: int| 0 <= m < s.len() ==> !projectile_hits_alien(p, #[trigger] s[m]),
        },
    decreases s.len(),
{
    if s.len() > 0 && !projectile_hits_alien(p, s[0]) {
        lemma_first_hit_in_range(p, s.drop_first());
        match first_hit(p, s.drop_first()) {
            Some(j) => {
                assert(s.drop_first()[j] == s[j + 1]);
            },
            None => {
                assert(forall|m: int|
                    1 <= m < s.len() ==> !projectile_hits_alien(
                        p,
                        #[trigger] s.drop_first()[m - 1],
                    ));
                assert(forall|m: int|
                    1 <= m < s.len() ==> s[m] == s.drop_first()[m - 1]);
            },
        }
    }
}

/// Score conservation: the resolver moves value, it never makes it. The
/// score it adds equals exactly the total point value of the aliens it
/// despawned, so the score changes only by aliens' fixed kind-based values.
pub proof fn lemma_resolve_score_conservation(
    st: ResolveState,
    ps: Seq<Projectile>,
    cx: int,
    cy: int,
)
    ensures
        ({
            let r = resolve_seq(st, ps, cx, cy);
            r.score + value_sum(r.aliens) == st.score + value_sum(st.aliens)
        }),
    decreases ps.len(),
{
    if ps.len() != 0 {
        let p = ps[0];
        if p.kind == ProjectileKind::CannonBall {
            lemma_first_hit_in_range(p, st.aliens);
            match first_hit(p, st.aliens) {
                Some(j) => {
                    lemma_value_sum_remove(st.aliens, j);
                },
                None => {},
            }
        }
        lemma_resolve_score_conservation(step_projectile(st, p, cx, cy), ps.drop_first(), cx, cy);
    }
}

/// Score monotonicity: resolving collisions never lowers the score.
pub proof fn lemma_resolve_score_monotone(st: ResolveState, ps: Seq<Projectile>, cx: int, cy: int)
    ensures
        resolve_seq(st, ps, cx, cy).score >= st.score,
    decreases ps.len(),
{
    if ps.len() != 0 {
        lemma_resolve_score_monotone(step_projectile(st, ps[0], cx, cy), ps.drop_first(), cx, cy);
    }
}

/// One resolver step raises the score either not at all or by exactly the
/// fixed value of the first alien the projectile overlaps.
pub proof fn lemma_step_score_increment(st: ResolveState, p: Projectile, cx: int, cy: int)
    ensures
        ({
            let r = step_projectile(st, p, cx, cy);
            r.score == st.score || (first_hit(p, st.aliens) is Some && 0 <= first_hit(
                p,
                st.aliens,
            ).unwrap() < st.aliens.len() && r.score == st.score + alien_value_spec(
                st.aliens[first_hit(p, st.aliens).unwrap()].kind,
            ))
        }),
{
    if p.kind == ProjectileKind::CannonBall {
        lemma_first_hit_in_range(p, st.aliens);
    }
}

/// Each alien kind's value is one of the four fixed amounts.
pub proof fn lemma_alien_values()
    ensures
        forall|k: AlienKind|
            #[trigger] alien_value_spec(k) == 10 || alien_value_spec(k) == 20 || alien_value_spec(
                k,
            ) == 30 || alien_value_spec(k) == 50,
{
}

/// Single consumption: every consumed cannon ball despawns exactly one alien
/// and is scored exactly once, so one projectile can neither destroy two
/// aliens nor be counted twice; surviving projectiles despawn nothing.
pub proof fn lemma_resolve_single_consumption(
    st: ResolveState,
    ps: Seq<Projectile>,
    cx: int,
    cy: int,
)
    ensures
        ({
            let r = resolve_seq(st, ps, cx, cy);
            &&& st.aliens.len() + count_kind(r.kept, ProjectileKind::CannonBall) == r.aliens.len()
                + count_kind(st.kept, ProjectileKind::CannonBall) + count_kind(
                ps,
                ProjectileKind::CannonBall,
            )
            &&& st.aliens.len() + count_score_signals(st.huds) == r.aliens.len()
                + count_score_signals(r.huds)
            &&& r.aliens.len() <= st.aliens.len()
            &&& r.kept.len() <= st.kept.len() + ps.len()
        }),
    decreases ps.len(),
{
    if ps.len() != 0 {
        let p = ps[0];
        let st1 = step_projectile(st, p, cx, cy);
        if p.kind == ProjectileKind::CannonBall {
            lemma_first_hit_in_range(p, st.aliens);
            match first_hit(p, st.aliens) {
                Some(j) => {
                    lemma_count_score_push(
                        st.huds,
                        Signal::ScoreChanged(
                            ((st.score + alien_value_spec(st.aliens[j].kind)) as u64),
                        ),
                    );
                },
                None => {
                    lemma_count_kind_push(st.kept, p, ProjectileKind::CannonBall);
                },
            }
        } else {
            if projectile_hits_cannon(p, cx, cy) {
                if st.lives > 0 {
                    lemma_count_score_push(
                        st.huds,
                        Signal::LivesChanged(((st.lives - 1) as u32)),
                    );
                }
            } else {
                lemma_count_kind_push(st.kept, p, ProjectileKind::CannonBall);
            }
        }
        lemma_resolve_single_consumption(st1, ps.drop_first(), cx, cy);
    }
}

/// Lives floor: the resolver never raises lives, never drives them below
/// zero, and emits exactly one lives-changed signal per decrement.
pub proof fn lemma_resolve_lives(st: ResolveState, ps: Seq<Projectile>, cx: int, cy: int)
    ensures
        ({
            let r = resolve_seq(st, ps, cx, cy);
            &&& r.lives <= st.lives
            &&& r.lives + count_lives_signals(r.huds) == st.lives + count_lives_signals(st.huds)
            &&& r.restarts >= st.restarts
        }),
    decreases ps.len(),
{
    if ps.len() != 0 {
        let p = ps[0];
        if p.kind == ProjectileKind::CannonBall {
            lemma_first_hit_in_range(p, st.aliens);
            match first_hit(p, st.aliens) {
                Some(j) => {
                    lemma_count_lives_push(
                        st.huds,
                        Signal::ScoreChanged(
                            ((st.score + alien_value_spec(st.aliens[j].kind)) as u64),
                        ),
                    );
                },
                None => {},
            }
        } else {
            if projectile_hits_cannon(p, cx, cy) && st.lives > 0 {
                lemma_count_lives_push(st.huds, Signal::LivesChanged(((st.lives - 1) as u32)));
            }
        }
        lemma_resolve_lives(step_projectile(st, p, cx, cy), ps.drop_first(), cx, cy);
    }
}

/// An alien ball that hits the cannon with no lives left requests exactly
/// one restart and decrements nothing: lives stay at zero, no signal is
/// emitted, and no other state changes.
pub proof fn lemma_hit_with_no_lives(st: ResolveState, p: Projectile, cx: int, cy: int)
    requires
        p.kind == ProjectileKind::AlienBall,
        projectile_hits_cannon(p, cx, cy),
        st.lives == 0,
    ensures
        step_projectile(st, p, cx, cy) == (ResolveState { restarts: st.restarts + 1, ..st }),
{
}

} // verus!
