//! When to ask the server what a questgiver's marker should be. The server only ever *answers*
//! the status query — it never pushes — so every refresh is the client's own to trigger, and a
//! status never re-asked is a marker frozen at whatever it was first seen as.
//!
//! * **The sweep** — every visible questgiver is re-asked when any self input to the server's
//!   answer moves: the generation folds our own watched fields ([`self_generation`]) with the
//!   packet epoch, and a changed generation clears the whole asked set.
//! * **Per unit** — the asked set is keyed on [`unit_ask_key`] (the NPC's service bits and its
//!   faction template), so any of those moving re-asks that one NPC; and an entry is dropped when
//!   its guid leaves the world, so coming back into view re-asks from scratch.
//! * **Per GameObject — on a sweep, and only on a sweep**: one passing the interact-condition
//!   flag and whose reaction toward us is above 1 (or unknown) is asked then, never at first
//!   sight.
//! * **The teardown** — a unit whose questgiver bit is off loses its cached status and its asked
//!   mark, unconditionally.

use vstd::hash_map::HashMapWithView;
use vstd::prelude::*;

verus! {

broadcast use vstd::std_specs::hash::group_hash_axioms;

/// The questgiver service bit of a unit's NPC flags.
pub const NPC_FLAG_QUESTGIVER: u32 = 0x2;

/// The GameObject flag bit the sweep's GameObject leg gates on.
pub const GO_FLAG_INTERACT_COND: u32 = 0x4;

/// The FNV-1a 64-bit offset basis and prime.
pub const FNV_OFFSET: u64 = 0xcbf2_9ce4_8422_2325;
pub const FNV_PRIME: u64 = 0x0000_0100_0000_01B3;

/// The kinds of object the sweep tells apart.
#[derive(Clone, Copy, Debug, PartialEq, Eq)]
pub enum SeenKind {
    /// A plain creature.
    Unit,
    /// A GameObject.
    GameObject,
    /// Anything else (a player falls out here).
    Other,
}

/// One object in view, with the fields the sweep reads.
#[derive(Clone, Copy, Debug, PartialEq, Eq)]
pub struct SeenObject {
    pub guid: u64,
    pub kind: SeenKind,
    /// A unit's NPC flags.
    pub npc_flags: u32,
    /// A unit's faction template, if known.
    pub faction_template: Option<u32>,
    /// A GameObject's flags.
    pub gameobject_flags: u32,
    /// A GameObject's reaction toward us, if it could be resolved.
    pub reaction: Option<u8>,
}

/// Our own watched descriptor fields.
#[derive(Clone, Debug, PartialEq, Eq)]
pub struct SelfFields {
    pub level: Option<u32>,
    pub health: Option<u32>,
    pub player_flags: u32,
    pub money: Option<u32>,
    /// The quest-log slots in order: `(quest id, state)` where the slot is readable.
    pub quest_log: Vec<Option<(u32, u32)>>,
    /// The skill slots in order: `(skill id, current value)` where the slot is readable.
    pub skills: Vec<Option<(u32, u32)>>,
    /// The inventory slots' guids, where readable.
    pub inventory: Vec<Option<u64>>,
}

/// One FNV-1a step.
pub open spec fn fnv(h: u64, v: u64) -> u64 {
    (h ^ v).wrapping_mul(FNV_PRIME)
}

/// FNV-1a over `vs`, from `h`.
pub open spec fn fnv_fold(h: u64, vs: Seq<u64>) -> u64
    decreases vs.len(),
{
    if vs.len() == 0 {
        h
    } else {
        fnv(fnv_fold(h, vs.drop_last()), vs.last())
    }
}

/// Multiplying by the FNV prime modulo 2^64 loses nothing: the prime is odd, so it has an
/// inverse modulo 2^64.
proof fn lemma_fnv_prime_mul_injective(x: u64, y: u64)
    requires
        x.wrapping_mul(FNV_PRIME) == y.wrapping_mul(FNV_PRIME),
    ensures
        x == y,
{
    let m: int = 0x1_0000_0000_0000_0000;
    let p: int = FNV_PRIME as int;
    let q: int = 0xce96_5057_aff6_957b;
    let k: int = 887285111055;
    assert(p * q == k * m + 1);
    assert forall|z: u64| #[trigger] z.wrapping_mul(FNV_PRIME) as int * q % m == z as int by {
        let zp = z as int * p;
        assert(z.wrapping_mul(FNV_PRIME) as int == zp % m);
        vstd::arithmetic::div_mod::lemma_mul_mod_noop_left(zp, q, m);
        assert(zp * q == m * (z * k) + z) by (nonlinear_arith)
            requires
                zp == z as int * p,
                p * q == k * m + 1,
        ;
        vstd::arithmetic::div_mod::lemma_mod_multiples_vanish(z * k, z as int, m);
        vstd::arithmetic::div_mod::lemma_small_mod(z as nat, m as nat);
    }
    assert(x.wrapping_mul(FNV_PRIME) as int * q % m == x as int);
    assert(y.wrapping_mul(FNV_PRIME) as int * q % m == y as int);
}

/// The `(id, value)` slots with a non-zero id, each folded to `id ^ value << 32`, in order.
pub open spec fn pair_inputs(s: Seq<Option<(u32, u32)>>) -> Seq<u64>
    decreases s.len(),
{
    if s.len() == 0 {
        Seq::empty()
    } else {
        match s.last() {
            Some((id, v)) => if id != 0 {
                pair_inputs(s.drop_last()).push((id as u64) ^ ((v as u64) << 32u64))
            } else {
                pair_inputs(s.drop_last())
            },
            None => pair_inputs(s.drop_last()),
        }
    }
}

/// The readable guids, in order.
pub open spec fn guid_inputs(s: Seq<Option<u64>>) -> Seq<u64>
    decreases s.len(),
{
    if s.len() == 0 {
        Seq::empty()
    } else {
        match s.last() {
            Some(g) => guid_inputs(s.drop_last()).push(g),
            None => guid_inputs(s.drop_last()),
        }
    }
}

/// What the generation folds, in order: level, the dead bit (health read as 0), the player
/// flags, money, the quest log, the skills, and the inventory guids.
pub open spec fn generation_inputs(f: SelfFields) -> Seq<u64> {
    seq![
        f.level.unwrap_or(0) as u64,
        if f.health.unwrap_or(1) == 0 { 1u64 } else { 0u64 },
        f.player_flags as u64,
        f.money.unwrap_or(0) as u64,
    ] + pair_inputs(f.quest_log@) + pair_inputs(f.skills@) + guid_inputs(f.inventory@)
}

/// Append each `(id, value)` slot with a non-zero id.
fn push_pairs(out: &mut Vec<u64>, s: &Vec<Option<(u32, u32)>>)
    ensures
        final(out)@ == old(out)@ + pair_inputs(s@),
{
    let ghost start = out@;
    let mut i: usize = 0;
    while i < s.len()
        invariant
            i <= s@.len(),
            out@ == start + pair_inputs(s@.subrange(0, i as int)),
        decreases s@.len() - i,
    {
        assert(s@.subrange(0, i + 1).drop_last() =~= s@.subrange(0, i as int));
        if let Some((id, v)) = s[i] {
            if id != 0 {
                out.push((id as u64) ^ ((v as u64) << 32u64));
                assert(out@ =~= start + pair_inputs(s@.subrange(0, i + 1)));
            }
        }
        i = i + 1;
    }
    assert(s@.subrange(0, s@.len() as int) =~= s@);
}

/// Fold every self field the sweep watches into one value — a change to any of them sweeps
/// every visible questgiver.
pub fn self_generation(f: &SelfFields) -> (h: u64)
    ensures
        h == fnv_fold(FNV_OFFSET, generation_inputs(*f)),
{
    let mut vs: Vec<u64> = Vec::new();
    vs.push(match f.level { Some(l) => l as u64, None => 0 });
    vs.push(if (match f.health { Some(x) => x, None => 1 }) == 0 { 1 } else { 0 });
    vs.push(f.player_flags as u64);
    vs.push(match f.money { Some(m) => m as u64, None => 0 });
    push_pairs(&mut vs, &f.quest_log);
    push_pairs(&mut vs, &f.skills);
    let ghost before = vs@;
    let mut i: usize = 0;
    while i < f.inventory.len()
        invariant
            i <= f.inventory@.len(),
            vs@ == before + guid_inputs(f.inventory@.subrange(0, i as int)),
        decreases f.inventory@.len() - i,
    {
        assert(f.inventory@.subrange(0, i + 1).drop_last() =~= f.inventory@.subrange(0, i as int));
        if let Some(g) = f.inventory[i] {
            vs.push(g);
            assert(vs@ =~= before + guid_inputs(f.inventory@.subrange(0, i + 1)));
        }
        i = i + 1;
    }
    assert(f.inventory@.subrange(0, f.inventory@.len() as int) =~= f.inventory@);
    assert(vs@ =~= generation_inputs(*f));
    let mut h: u64 = FNV_OFFSET;
    let mut k: usize = 0;
    while k < vs.len()
        invariant
            k <= vs@.len(),
            h == fnv_fold(FNV_OFFSET, vs@.subrange(0, k as int)),
        decreases vs@.len() - k,
    {
        assert(vs@.subrange(0, k + 1).drop_last() =~= vs@.subrange(0, k as int));
        h = (h ^ vs[k]).wrapping_mul(FNV_PRIME);
        k = k + 1;
    }
    assert(vs@.subrange(0, vs@.len() as int) =~= vs@);
    h
}

/// One FNV step tells apart two running hashes under the same input.
proof fn lemma_fnv_injective_hash(a: u64, b: u64, v: u64)
    requires
        fnv(a, v) == fnv(b, v),
    ensures
        a == b,
{
    lemma_fnv_prime_mul_injective(a ^ v, b ^ v);
    assert(a ^ v == b ^ v ==> a == b) by (bit_vector);
}

/// One FNV step tells apart two inputs under the same running hash.
proof fn lemma_fnv_injective_input(h: u64, v: u64, w: u64)
    requires
        fnv(h, v) == fnv(h, w),
    ensures
        v == w,
{
    lemma_fnv_prime_mul_injective(h ^ v, h ^ w);
    assert(h ^ v == h ^ w ==> v == w) by (bit_vector);
}

/// The fold sees every input: two input lists of one length that differ at exactly one place
/// fold, from the same start, to different hashes.
pub proof fn lemma_fnv_fold_sees_one_change(h: u64, s: Seq<u64>, t: Seq<u64>, k: int)
    requires
        s.len() == t.len(),
        0 <= k < s.len(),
        s[k] != t[k],
        forall|i: int| 0 <= i < s.len() && i != k ==> s[i] == t[i],
    ensures
        fnv_fold(h, s) != fnv_fold(h, t),
    decreases s.len(),
{
    let n = s.len() - 1;
    if k == n {
        assert(s.drop_last() =~= t.drop_last());
        if fnv_fold(h, s) == fnv_fold(h, t) {
            lemma_fnv_injective_input(fnv_fold(h, s.drop_last()), s.last(), t.last());
        }
    } else {
        lemma_fnv_fold_sees_one_change(h, s.drop_last(), t.drop_last(), k);
        assert(s.last() == t.last());
        if fnv_fold(h, s) == fnv_fold(h, t) {
            lemma_fnv_injective_hash(fnv_fold(h, s.drop_last()), fnv_fold(h, t.drop_last()), s.last());
        }
    }
}

/// Changing the state of one readable quest-log slot with a non-zero id changes exactly one
/// folded input, at the same place.
proof fn lemma_pair_inputs_one_change(a: Seq<Option<(u32, u32)>>, k: int, id: u32, s1: u32, s2: u32)
    requires
        0 <= k < a.len(),
        a[k] == Some((id, s1)),
        id != 0,
        s1 != s2,
    ensures
        ({
            let b = a.update(k, Some((id, s2)));
            let (pa, pb) = (pair_inputs(a), pair_inputs(b));
            &&& pa.len() == pb.len()
            &&& exists|j: int|
                0 <= j < pa.len() && pa[j] != pb[j] && forall|i: int|
                    0 <= i < pa.len() && i != j ==> #[trigger] pa[i] == pb[i]
        }),
    decreases a.len(),
{
    let b = a.update(k, Some((id, s2)));
    let n = a.len() - 1;
    if k == n {
        assert(b.drop_last() =~= a.drop_last());
        let pd = pair_inputs(a.drop_last());
        let x = (id as u64) ^ ((s1 as u64) << 32u64);
        let y = (id as u64) ^ ((s2 as u64) << 32u64);
        assert(x != y) by (bit_vector)
            requires
                x == (id as u64) ^ ((s1 as u64) << 32u64),
                y == (id as u64) ^ ((s2 as u64) << 32u64),
                s1 != s2,
        ;
        assert(pair_inputs(a) == pd.push(x));
        assert(pair_inputs(b) == pd.push(y));
        let j = pd.len() as int;
        assert forall|i: int| 0 <= i < pd.len() + 1 && i != j implies #[trigger] pair_inputs(a)[i]
            == pair_inputs(b)[i] by {}
        assert(pair_inputs(a)[j] != pair_inputs(b)[j]);
        assert(0 <= j < pair_inputs(a).len() && pair_inputs(a)[j] != pair_inputs(b)[j] && forall|i: int|
            0 <= i < pair_inputs(a).len() && i != j ==> #[trigger] pair_inputs(a)[i] == pair_inputs(b)[i]);
    } else {
        let ad = a.drop_last();
        assert(b.drop_last() =~= ad.update(k, Some((id, s2))));
        assert(b.last() == a.last());
        lemma_pair_inputs_one_change(ad, k, id, s1, s2);
        let (qa, qb) = (pair_inputs(ad), pair_inputs(ad.update(k, Some((id, s2)))));
        let j = choose|j: int|
            0 <= j < qa.len() && qa[j] != qb[j] && forall|i: int|
                0 <= i < qa.len() && i != j ==> #[trigger] qa[i] == qb[i];
        let (pa, pb) = (pair_inputs(a), pair_inputs(b));
        assert(pa.len() == pb.len());
        assert(pa[j] != pb[j]);
        assert forall|i: int| 0 <= i < pa.len() && i != j implies #[trigger] pa[i] == pb[i] by {
            if i < qa.len() {
                assert(qa[i] == qb[i]);
            }
        }
        assert(0 <= j < pa.len() && pa[j] != pb[j] && forall|i: int|
            0 <= i < pa.len() && i != j ==> #[trigger] pa[i] == pb[i]);
    }
}

/// **A quest-log change sweeps.** Our own fields `f` and `g` that differ only in the state of
/// one readable quest-log slot with a non-zero id (a quest's objectives completing, say) have
/// different self generations — every watched field enters the fold — so, under one re-ask
/// epoch, a frame read with `g` after one read with `f` is a sweep and re-asks every questgiver
/// in view.
pub proof fn lemma_quest_state_change_sweeps(
    f: SelfFields,
    g: SelfFields,
    k: int,
    id: u32,
    s1: u32,
    s2: u32,
    epoch: u32,
)
    requires
        0 <= k < f.quest_log@.len(),
        f.quest_log@[k] == Some((id, s1)),
        id != 0,
        s1 != s2,
        g.quest_log@ == f.quest_log@.update(k, Some((id, s2))),
        g.level == f.level,
        g.health == f.health,
        g.player_flags == f.player_flags,
        g.money == f.money,
        g.skills@ == f.skills@,
        g.inventory@ == f.inventory@,
    ensures
        fnv_fold(FNV_OFFSET, generation_inputs(f)) != fnv_fold(FNV_OFFSET, generation_inputs(g)),
        fnv_fold(FNV_OFFSET, generation_inputs(f)) ^ ((epoch as u64) << 32u64) != fnv_fold(
            FNV_OFFSET,
            generation_inputs(g),
        ) ^ ((epoch as u64) << 32u64),
{
    lemma_pair_inputs_one_change(f.quest_log@, k, id, s1, s2);
    let (pa, pb) = (pair_inputs(f.quest_log@), pair_inputs(g.quest_log@));
    let j = choose|j: int|
        0 <= j < pa.len() && pa[j] != pb[j] && forall|i: int|
            0 <= i < pa.len() && i != j ==> #[trigger] pa[i] == pb[i];
    let head = seq![
        f.level.unwrap_or(0) as u64,
        if f.health.unwrap_or(1) == 0 { 1u64 } else { 0u64 },
        f.player_flags as u64,
        f.money.unwrap_or(0) as u64,
    ];
    let tail = pair_inputs(f.skills@) + guid_inputs(f.inventory@);
    let (sf, sg) = (generation_inputs(f), generation_inputs(g));
    assert(sf =~= head + pa + tail);
    assert(sg =~= head + pb + tail);
    assert(sf[4 + j] == pa[j]);
    assert(sg[4 + j] == pb[j]);
    assert forall|i: int| 0 <= i < sf.len() && i != 4 + j implies sf[i] == sg[i] by {
        if 4 <= i < 4 + pa.len() {
            assert(pa[i - 4] == pb[i - 4]);
        }
    }
    lemma_fnv_fold_sees_one_change(FNV_OFFSET, sf, sg, 4 + j);
    let (hf, hg) = (fnv_fold(FNV_OFFSET, sf), fnv_fold(FNV_OFFSET, sg));
    let e = (epoch as u64) << 32u64;
    assert(hf != hg ==> hf ^ e != hg ^ e) by (bit_vector);
}

/// Input lists of one length that differ at exactly one place give, under any epoch, different
/// combined generations.
proof fn lemma_one_input_change_sweeps(sf: Seq<u64>, sg: Seq<u64>, j: int, epoch: u32)
    requires
        sf.len() == sg.len(),
        0 <= j < sf.len(),
        sf[j] != sg[j],
        forall|i: int| 0 <= i < sf.len() && i != j ==> sf[i] == sg[i],
    ensures
        fnv_fold(FNV_OFFSET, sf) != fnv_fold(FNV_OFFSET, sg),
        fnv_fold(FNV_OFFSET, sf) ^ ((epoch as u64) << 32u64) != fnv_fold(FNV_OFFSET, sg) ^ ((
        epoch as u64) << 32u64),
{
    lemma_fnv_fold_sees_one_change(FNV_OFFSET, sf, sg, j);
    let (hf, hg) = (fnv_fold(FNV_OFFSET, sf), fnv_fold(FNV_OFFSET, sg));
    let e = (epoch as u64) << 32u64;
    assert(hf != hg ==> hf ^ e != hg ^ e) by (bit_vector);
}

/// **A change to one of our plain watched fields sweeps.** Our own fields `f` and `g` that agree
/// on the quest log, the skills and the inventory, and differ in exactly one of: the level
/// (read as 0 when unreadable), being dead (health read as 0), the player flags, or the money
/// (read as 0 when unreadable), have different self generations; so, under one re-ask epoch, a
/// frame read with `g` after one read with `f` is a sweep.
pub proof fn lemma_plain_field_change_sweeps(f: SelfFields, g: SelfFields, epoch: u32)
    requires
        g.quest_log@ == f.quest_log@,
        g.skills@ == f.skills@,
        g.inventory@ == f.inventory@,
        ({
            let level = f.level.unwrap_or(0) != g.level.unwrap_or(0);
            let dead = (f.health.unwrap_or(1) == 0) != (g.health.unwrap_or(1) == 0);
            let flags = f.player_flags != g.player_flags;
            let money = f.money.unwrap_or(0) != g.money.unwrap_or(0);
            ||| level && !dead && !flags && !money
            ||| !level && dead && !flags && !money
            ||| !level && !dead && flags && !money
            ||| !level && !dead && !flags && money
        }),
    ensures
        fnv_fold(FNV_OFFSET, generation_inputs(f)) != fnv_fold(FNV_OFFSET, generation_inputs(g)),
        fnv_fold(FNV_OFFSET, generation_inputs(f)) ^ ((epoch as u64) << 32u64) != fnv_fold(
            FNV_OFFSET,
            generation_inputs(g),
        ) ^ ((epoch as u64) << 32u64),
{
    let (sf, sg) = (generation_inputs(f), generation_inputs(g));
    let j: int = if f.level.unwrap_or(0) != g.level.unwrap_or(0) {
        0
    } else if (f.health.unwrap_or(1) == 0) != (g.health.unwrap_or(1) == 0) {
        1
    } else if f.player_flags != g.player_flags {
        2
    } else {
        3
    };
    assert(sf.len() == sg.len());
    assert forall|i: int| 0 <= i < sf.len() && i != j implies sf[i] == sg[i] by {}
    lemma_one_input_change_sweeps(sf, sg, j, epoch);
}

/// Changing one readable guid to another changes exactly one folded input.
proof fn lemma_guid_inputs_one_change(a: Seq<Option<u64>>, k: int, g1: u64, g2: u64)
    requires
        0 <= k < a.len(),
        a[k] == Some(g1),
        g1 != g2,
    ensures
        ({
            let (pa, pb) = (guid_inputs(a), guid_inputs(a.update(k, Some(g2))));
            &&& pa.len() == pb.len()
            &&& exists|j: int|
                0 <= j < pa.len() && pa[j] != pb[j] && forall|i: int|
                    0 <= i < pa.len() && i != j ==> #[trigger] pa[i] == pb[i]
        }),
    decreases a.len(),
{
    let b = a.update(k, Some(g2));
    let (pa, pb) = (guid_inputs(a), guid_inputs(b));
    if k == a.len() - 1 {
        assert(b.drop_last() =~= a.drop_last());
        let j = guid_inputs(a.drop_last()).len() as int;
        assert(pa[j] != pb[j]);
        assert forall|i: int| 0 <= i < pa.len() && i != j implies #[trigger] pa[i] == pb[i] by {}
        assert(0 <= j < pa.len() && pa[j] != pb[j] && forall|i: int|
            0 <= i < pa.len() && i != j ==> #[trigger] pa[i] == pb[i]);
    } else {
        let ad = a.drop_last();
        assert(b.drop_last() =~= ad.update(k, Some(g2)));
        assert(b.last() == a.last());
        lemma_guid_inputs_one_change(ad, k, g1, g2);
        let (qa, qb) = (guid_inputs(ad), guid_inputs(ad.update(k, Some(g2))));
        let j = choose|j: int|
            0 <= j < qa.len() && qa[j] != qb[j] && forall|i: int|
                0 <= i < qa.len() && i != j ==> #[trigger] qa[i] == qb[i];
        assert(pa[j] != pb[j]);
        assert forall|i: int| 0 <= i < pa.len() && i != j implies #[trigger] pa[i] == pb[i] by {
            if i < qa.len() {
                assert(qa[i] == qb[i]);
            }
        }
        assert(0 <= j < pa.len() && pa[j] != pb[j] && forall|i: int|
            0 <= i < pa.len() && i != j ==> #[trigger] pa[i] == pb[i]);
    }
}

/// **A skill rank-up or an equipment swap sweeps.** Our own fields `f` and `g` that differ only
/// in the value of one readable skill slot with a non-zero id, or only in the guid held by one
/// readable inventory slot, have different self generations; so, under one re-ask epoch, a frame
/// read with `g` after one read with `f` is a sweep.
pub proof fn lemma_skill_or_equipment_change_sweeps(
    f: SelfFields,
    g: SelfFields,
    k: int,
    skill: bool,
    id: u32,
    v1: u32,
    v2: u32,
    g1: u64,
    g2: u64,
    epoch: u32,
)
    requires
        g.level == f.level,
        g.health == f.health,
        g.player_flags == f.player_flags,
        g.money == f.money,
        g.quest_log@ == f.quest_log@,
        skill ==> {
            &&& 0 <= k < f.skills@.len()
            &&& f.skills@[k] == Some((id, v1))
            &&& id != 0
            &&& v1 != v2
            &&& g.skills@ == f.skills@.update(k, Some((id, v2)))
            &&& g.inventory@ == f.inventory@
        },
        !skill ==> {
            &&& 0 <= k < f.inventory@.len()
            &&& f.inventory@[k] == Some(g1)
            &&& g1 != g2
            &&& g.inventory@ == f.inventory@.update(k, Some(g2))
            &&& g.skills@ == f.skills@
        },
    ensures
        fnv_fold(FNV_OFFSET, generation_inputs(f)) != fnv_fold(FNV_OFFSET, generation_inputs(g)),
        fnv_fold(FNV_OFFSET, generation_inputs(f)) ^ ((epoch as u64) << 32u64) != fnv_fold(
            FNV_OFFSET,
            generation_inputs(g),
        ) ^ ((epoch as u64) << 32u64),
{
    let head = seq![
        f.level.unwrap_or(0) as u64,
        if f.health.unwrap_or(1) == 0 { 1u64 } else { 0u64 },
        f.player_flags as u64,
        f.money.unwrap_or(0) as u64,
    ];
    let q = pair_inputs(f.quest_log@);
    let (sf, sg) = (generation_inputs(f), generation_inputs(g));
    if skill {
        lemma_pair_inputs_one_change(f.skills@, k, id, v1, v2);
        let (pa, pb) = (pair_inputs(f.skills@), pair_inputs(g.skills@));
        let j = choose|j: int|
            0 <= j < pa.len() && pa[j] != pb[j] && forall|i: int|
                0 <= i < pa.len() && i != j ==> #[trigger] pa[i] == pb[i];
        let inv = guid_inputs(f.inventory@);
        assert(sf =~= head + q + pa + inv);
        assert(sg =~= head + q + pb + inv);
        let at = 4 + q.len() + j;
        assert(sf[at] == pa[j]);
        assert(sg[at] == pb[j]);
        assert forall|i: int| 0 <= i < sf.len() && i != at implies sf[i] == sg[i] by {
            if 4 + q.len() <= i < 4 + q.len() + pa.len() {
                assert(pa[i - 4 - q.len()] == pb[i - 4 - q.len()]);
            }
        }
        lemma_one_input_change_sweeps(sf, sg, at, epoch);
    } else {
        lemma_guid_inputs_one_change(f.inventory@, k, g1, g2);
        let (pa, pb) = (guid_inputs(f.inventory@), guid_inputs(g.inventory@));
        let j = choose|j: int|
            0 <= j < pa.len() && pa[j] != pb[j] && forall|i: int|
                0 <= i < pa.len() && i != j ==> #[trigger] pa[i] == pb[i];
        let sk = pair_inputs(f.skills@);
        assert(sf =~= head + q + sk + pa);
        assert(sg =~= head + q + sk + pb);
        let at = 4 + q.len() + sk.len() + j;
        assert(sf[at] == pa[j]);
        assert(sg[at] == pb[j]);
        assert forall|i: int| 0 <= i < sf.len() && i != at implies sf[i] == sg[i] by {
            if at - j <= i {
                assert(pa[i - (at - j)] == pb[i - (at - j)]);
            }
        }
        lemma_one_input_change_sweeps(sf, sg, at, epoch);
    }
}

/// **A re-ask epoch bump sweeps.** With our own fields unchanged, a frame under a different
/// re-ask epoch has a different combined generation, so it is a sweep.
pub proof fn lemma_epoch_bump_sweeps(fields: u64, e1: u32, e2: u32)
    requires
        e1 != e2,
    ensures
        fields ^ ((e1 as u64) << 32u64) != fields ^ ((e2 as u64) << 32u64),
{
    assert(e1 != e2 ==> fields ^ ((e1 as u64) << 32u64) != fields ^ ((e2 as u64) << 32u64))
        by (bit_vector);
}

/// The per-unit ask key: the NPC flags in the low word, the faction template in the high one.
pub open spec fn ask_key(npc_flags: u32, faction_template: Option<u32>) -> u64 {
    (npc_flags as u64) | ((faction_template.unwrap_or(0) as u64) << 32u64)
}

/// The per-unit ask key: re-ask that NPC whenever this moves.
pub fn unit_ask_key(npc_flags: u32, faction_template: Option<u32>) -> (k: u64)
    ensures
        k == ask_key(npc_flags, faction_template),
{
    let f = match faction_template {
        Some(f) => f,
        None => 0,
    };
    (npc_flags as u64) | ((f as u64) << 32u64)
}

/// What one object does to the asked set, and whether it is queried or has its status cleared.
pub open spec fn object_step(asked: Map<u64, u64>, swept: bool, o: SeenObject) -> (Map<u64, u64>, Option<u64>, Option<u64>) {
    match o.kind {
        SeenKind::Unit => if o.npc_flags & NPC_FLAG_QUESTGIVER == 0 {
            (asked.remove(o.guid), None, Some(o.guid))
        } else {
            let key = ask_key(o.npc_flags, o.faction_template);
            (
                asked.insert(o.guid, key),
                if asked.contains_key(o.guid) && asked[o.guid] == key {
                    None
                } else {
                    Some(o.guid)
                },
                None,
            )
        },
        SeenKind::GameObject => if swept && o.gameobject_flags & GO_FLAG_INTERACT_COND != 0 && (
        o.reaction is None || o.reaction.unwrap() > 1) {
            (asked, Some(o.guid), None)
        } else {
            (asked, None, None)
        },
        SeenKind::Other => (asked, None, None),
    }
}

pub open spec fn opt_push(s: Seq<u64>, x: Option<u64>) -> Seq<u64> {
    match x {
        Some(x) => s.push(x),
        None => s,
    }
}

/// The objects in order: the asked set after them, the guids queried, the statuses cleared.
pub open spec fn objects_step(asked: Map<u64, u64>, swept: bool, objs: Seq<SeenObject>) -> (Map<u64, u64>, Seq<u64>, Seq<u64>)
    decreases objs.len(),
{
    if objs.len() == 0 {
        (asked, Seq::empty(), Seq::empty())
    } else {
        let (a, q, c) = objects_step(asked, swept, objs.drop_last());
        let (a2, q1, c1) = object_step(a, swept, objs.last());
        (a2, opt_push(q, q1), opt_push(c, c1))
    }
}

proof fn lemma_push_contains(s: Seq<u64>, g: u64)
    ensures
        forall|x: u64| #[trigger] s.push(g).contains(x) <==> s.contains(x) || x == g,
{
    assert forall|x: u64| #[trigger] s.push(g).contains(x) <==> s.contains(x) || x == g by {
        if s.push(g).contains(x) {
            let k = choose|k: int| 0 <= k < s.len() + 1 && s.push(g)[k] == x;
            if k < s.len() {
                assert(s[k] == x);
            }
        }
        if s.contains(x) {
            let k = choose|k: int| 0 <= k < s.len() && s[k] == x;
            assert(s.push(g)[k] == x);
        }
        if x == g {
            assert(s.push(g)[s.len() as int] == g);
        }
    }
}

/// Guids of `objs` are pairwise distinct.
pub open spec fn distinct_guids(objs: Seq<SeenObject>) -> bool {
    forall|i: int, j: int| 0 <= i < j < objs.len() ==> objs[i].guid != objs[j].guid
}

/// A questgiver unit: what the per-unit leg queries.
pub open spec fn is_questgiver_unit(o: SeenObject) -> bool {
    o.kind == SeenKind::Unit && o.npc_flags & NPC_FLAG_QUESTGIVER != 0
}

/// Processing objects only touches their own guids' entries.
proof fn lemma_step_touches_own_guids(a: Map<u64, u64>, swept: bool, objs: Seq<SeenObject>, g: u64)
    requires
        forall|i: int| 0 <= i < objs.len() ==> objs[i].guid != g,
    ensures
        objects_step(a, swept, objs).0.contains_key(g) == a.contains_key(g),
        a.contains_key(g) ==> objects_step(a, swept, objs).0[g] == a[g],
    decreases objs.len(),
{
    if objs.len() > 0 {
        lemma_step_touches_own_guids(a, swept, objs.drop_last(), g);
    }
}

/// After the objects are processed, every questgiver unit among them (distinct guids) is marked
/// asked at its own key.
proof fn lemma_step_marks_questgivers(a: Map<u64, u64>, swept: bool, objs: Seq<SeenObject>, k: int)
    requires
        distinct_guids(objs),
        0 <= k < objs.len(),
        is_questgiver_unit(objs[k]),
    ensures
        objects_step(a, swept, objs).0.contains_key(objs[k].guid),
        objects_step(a, swept, objs).0[objs[k].guid] == ask_key(objs[k].npc_flags, objs[k].faction_template),
    decreases objs.len(),
{
    let p = objs.drop_last();
    if k < objs.len() - 1 {
        lemma_step_marks_questgivers(a, swept, p, k);
        assert(objs.last().guid != objs[k].guid);
    }
}

/// A frame whose questgiver units are all marked at their keys, with no sweep, queries nothing.
proof fn lemma_marked_frame_asks_nothing(a: Map<u64, u64>, objs: Seq<SeenObject>)
    requires
        distinct_guids(objs),
        forall|i: int| 0 <= i < objs.len() && is_questgiver_unit(#[trigger] objs[i]) ==> a.contains_key(objs[i].guid)
            && a[objs[i].guid] == ask_key(objs[i].npc_flags, objs[i].faction_template),
    ensures
        objects_step(a, false, objs).1.len() == 0,
    decreases objs.len(),
{
    if objs.len() > 0 {
        let p = objs.drop_last();
        assert forall|i: int| 0 <= i < p.len() && is_questgiver_unit(#[trigger] p[i]) implies a.contains_key(p[i].guid)
            && a[p[i].guid] == ask_key(p[i].npc_flags, p[i].faction_template) by {
            assert(p[i] == objs[i]);
        }
        lemma_marked_frame_asks_nothing(a, p);
        let o = objs.last();
        assert forall|i: int| 0 <= i < p.len() implies p[i].guid != o.guid by {
            assert(p[i] == objs[i]);
        }
        lemma_step_touches_own_guids(a, false, p, o.guid);
        if is_questgiver_unit(o) {
            assert(objs[objs.len() - 1] == o);
        }
    }
}

/// The re-ask law's quiet half: once a frame has run, the next frame with nothing changed —
/// no new self fields, the same epoch, the same objects (distinct, all still in the world) —
/// asks nothing at all. Asked once when it comes into view, not again while nothing changes.
pub proof fn lemma_quiet_frame_asks_nothing(
    fields: u64,
    generation: u64,
    asked: Map<u64, u64>,
    epoch: u32,
    world: Seq<u64>,
    objs: Seq<SeenObject>,
)
    requires
        distinct_guids(objs),
        forall|i: int| 0 <= i < objs.len() ==> world.contains(#[trigger] objs[i].guid),
    ensures
        ({
            let g1 = fields ^ ((epoch as u64) << 32u64);
            let kept1 = (if generation != g1 {
                Map::<u64, u64>::empty()
            } else {
                asked
            }).restrict(world.to_set());
            let (asked1, _, _) = objects_step(kept1, generation != g1, objs);
            let kept2 = asked1.restrict(world.to_set());
            objects_step(kept2, false, objs).1.len() == 0
        }),
{
    let g1 = fields ^ ((epoch as u64) << 32u64);
    let swept = generation != g1;
    let kept1 = (if swept {
        Map::<u64, u64>::empty()
    } else {
        asked
    }).restrict(world.to_set());
    let asked1 = objects_step(kept1, swept, objs).0;
    let kept2 = asked1.restrict(world.to_set());
    assert forall|i: int| 0 <= i < objs.len() && is_questgiver_unit(#[trigger] objs[i]) implies kept2.contains_key(objs[i].guid)
        && kept2[objs[i].guid] == ask_key(objs[i].npc_flags, objs[i].faction_template) by {
        lemma_step_marks_questgivers(kept1, swept, objs, i);
        assert(world.to_set().contains(objs[i].guid));
    }
    lemma_marked_frame_asks_nothing(kept2, objs);
}

/// The sweep's half: on a sweep the asked set starts empty, so every questgiver unit in view
/// (distinct guids) is asked, and every GameObject passing the interact flag and the reaction
/// gate is asked too.
pub proof fn lemma_sweep_asks_every_questgiver(objs: Seq<SeenObject>, k: int)
    requires
        distinct_guids(objs),
        0 <= k < objs.len(),
        is_questgiver_unit(objs[k]) || (objs[k].kind == SeenKind::GameObject && objs[k].gameobject_flags
            & GO_FLAG_INTERACT_COND != 0 && (objs[k].reaction is None || objs[k].reaction.unwrap() > 1)),
    ensures
        objects_step(Map::<u64, u64>::empty(), true, objs).1.contains(objs[k].guid),
    decreases objs.len(),
{
    let p = objs.drop_last();
    let (a, q, c) = objects_step(Map::<u64, u64>::empty(), true, p);
    let q2 = objects_step(Map::<u64, u64>::empty(), true, objs).1;
    if k < objs.len() - 1 {
        assert(p[k] == objs[k]);
        lemma_sweep_asks_every_questgiver(p, k);
        let w = choose|w: int| 0 <= w < q.len() && q[w] == objs[k].guid;
        let (_, q1, _) = object_step(a, true, objs.last());
        assert(q2 == opt_push(q, q1));
        assert(q2[w] == objs[k].guid);
    } else {
        let o = objs.last();
        assert forall|i: int| 0 <= i < p.len() implies p[i].guid != o.guid by {
            assert(p[i] == objs[i]);
        }
        lemma_step_touches_own_guids(Map::<u64, u64>::empty(), true, p, o.guid);
        assert(q2[q.len() as int] == o.guid);
    }
}

/// Reading objects `p` then `r` is reading `p + r`.
proof fn lemma_objects_step_concat(a: Map<u64, u64>, swept: bool, p: Seq<SeenObject>, r: Seq<SeenObject>)
    ensures
        ({
            let (a1, q1, c1) = objects_step(a, swept, p);
            let (a2, q2, c2) = objects_step(a1, swept, r);
            objects_step(a, swept, p + r) == (a2, q1 + q2, c1 + c2)
        }),
    decreases r.len(),
{
    let (a1, q1, c1) = objects_step(a, swept, p);
    if r.len() == 0 {
        assert(p + r =~= p);
        assert(q1 + Seq::<u64>::empty() =~= q1);
        assert(c1 + Seq::<u64>::empty() =~= c1);
    } else {
        assert((p + r).drop_last() =~= p + r.drop_last());
        assert((p + r).last() == r.last());
        lemma_objects_step_concat(a, swept, p, r.drop_last());
        let (a2, q2, c2) = objects_step(a1, swept, r.drop_last());
        let (a3, qx, cx) = object_step(a2, swept, r.last());
        assert(opt_push(q1 + q2, qx) =~= q1 + opt_push(q2, qx));
        assert(opt_push(c1 + c2, cx) =~= c1 + opt_push(c2, cx));
    }
}

/// Objects of other guids neither query nor clear `g`.
proof fn lemma_other_guids_leave_g(a: Map<u64, u64>, swept: bool, objs: Seq<SeenObject>, g: u64)
    requires
        forall|i: int| 0 <= i < objs.len() ==> objs[i].guid != g,
    ensures
        !objects_step(a, swept, objs).1.contains(g),
        !objects_step(a, swept, objs).2.contains(g),
    decreases objs.len(),
{
    if objs.len() > 0 {
        let p = objs.drop_last();
        assert forall|i: int| 0 <= i < p.len() implies p[i].guid != g by {
            assert(p[i] == objs[i]);
        }
        lemma_other_guids_leave_g(a, swept, p, g);
        let (a1, q1, c1) = objects_step(a, swept, p);
        let o = objs.last();
        assert(o.guid != g) by {
            assert(o == objs[objs.len() - 1]);
        }
        lemma_push_contains(q1, o.guid);
        lemma_push_contains(c1, o.guid);
    }
}

/// One object's share of a frame: the frame's queries and clears of its guid are exactly the
/// object's own step's, taken from the asked set the objects before it left.
proof fn lemma_frame_at(a: Map<u64, u64>, swept: bool, objs: Seq<SeenObject>, k: int)
    requires
        distinct_guids(objs),
        0 <= k < objs.len(),
    ensures
        ({
            let g = objs[k].guid;
            let before = objects_step(a, swept, objs.subrange(0, k)).0;
            let (a_k, x, y) = object_step(before, swept, objs[k]);
            let (af, q, c) = objects_step(a, swept, objs);
            &&& (q.contains(g) <==> x == Some(g))
            &&& (c.contains(g) <==> y == Some(g))
            &&& (forall|w1: int, w2: int|
                0 <= w1 < q.len() && 0 <= w2 < q.len() && q[w1] == g && q[w2] == g ==> w1 == w2)
            &&& af.contains_key(g) == a_k.contains_key(g)
        }),
{
    let g = objs[k].guid;
    let p = objs.subrange(0, k);
    let m = seq![objs[k]];
    let r = objs.subrange(k + 1, objs.len() as int);
    assert(objs =~= p + m + r);
    lemma_objects_step_concat(a, swept, p, m);
    lemma_objects_step_concat(a, swept, p + m, r);
    let (ap, qp, cp) = objects_step(a, swept, p);
    assert(m.drop_last() =~= Seq::<SeenObject>::empty());
    assert(m.last() == objs[k]);
    assert(objects_step(ap, swept, m.drop_last()) == (ap, Seq::<u64>::empty(), Seq::<u64>::empty()));
    let (am, x, y) = object_step(ap, swept, objs[k]);
    let qm = opt_push(Seq::<u64>::empty(), x);
    let cm = opt_push(Seq::<u64>::empty(), y);
    assert(objects_step(ap, swept, m) == (am, qm, cm));
    assert forall|i: int| 0 <= i < p.len() implies p[i].guid != g by {
        assert(p[i] == objs[i]);
    }
    assert forall|i: int| 0 <= i < r.len() implies r[i].guid != g by {
        assert(r[i] == objs[k + 1 + i]);
    }
    lemma_other_guids_leave_g(a, swept, p, g);
    lemma_other_guids_leave_g(am, swept, r, g);
    lemma_step_touches_own_guids(am, swept, r, g);
    let (ar, qr, cr) = objects_step(am, swept, r);
    let q = qp + qm + qr;
    let c = cp + cm + cr;
    assert(objects_step(a, swept, objs) == (ar, q, c));
    assert(q.contains(g) <==> x == Some(g)) by {
        if q.contains(g) {
            let w = choose|w: int| 0 <= w < q.len() && q[w] == g;
            if w < qp.len() {
                assert(qp[w] == g);
            } else if w < qp.len() + qm.len() {
                assert(qm[w - qp.len()] == g);
            } else {
                assert(qr[w - qp.len() - qm.len()] == g);
            }
        }
        if x == Some(g) {
            assert(q[qp.len() as int] == g);
        }
    }
    assert(c.contains(g) <==> y == Some(g)) by {
        if c.contains(g) {
            let w = choose|w: int| 0 <= w < c.len() && c[w] == g;
            if w < cp.len() {
                assert(cp[w] == g);
            } else if w < cp.len() + cm.len() {
                assert(cm[w - cp.len()] == g);
            } else {
                assert(cr[w - cp.len() - cm.len()] == g);
            }
        }
        if y == Some(g) {
            assert(c[cp.len() as int] == g);
        }
    }
    assert forall|w1: int, w2: int|
        0 <= w1 < q.len() && 0 <= w2 < q.len() && q[w1] == g && q[w2] == g implies w1 == w2 by {
        assert forall|w: int| 0 <= w < q.len() && q[w] == g implies w == qp.len() by {
            if w < qp.len() {
                assert(qp[w] == g);
            } else if w >= qp.len() + qm.len() {
                assert(qr[w - qp.len() - qm.len()] == g);
            } else {
                assert(qm.len() <= 1);
            }
        }
    }
}

/// The teardown law: in any frame (a sweep or not, whatever was asked before), a unit in view
/// whose questgiver bit is off is not queried, has its cached status cleared, and is left
/// unasked; a unit whose bit is on keeps its cached status. Guids in view are distinct.
pub proof fn lemma_non_questgiver_unit_is_cleared(
    asked: Map<u64, u64>,
    swept: bool,
    objs: Seq<SeenObject>,
    k: int,
)
    requires
        distinct_guids(objs),
        0 <= k < objs.len(),
        objs[k].kind == SeenKind::Unit,
    ensures
        ({
            let g = objs[k].guid;
            let (after, queries, cleared) = objects_step(asked, swept, objs);
            if objs[k].npc_flags & NPC_FLAG_QUESTGIVER == 0 {
                &&& !queries.contains(g)
                &&& cleared.contains(g)
                &&& !after.contains_key(g)
            } else {
                !cleared.contains(g)
            }
        }),
{
    lemma_frame_at(asked, swept, objs, k);
}

/// The GameObject law: in any frame, a GameObject in view is queried exactly when the frame is a
/// sweep and the object passes the interact-condition flag and the reaction gate (a reaction
/// above 1, or none resolved) — never at first sight without a sweep — and then exactly once.
/// Guids in view are distinct.
pub proof fn lemma_gameobject_asked_on_sweeps_only(
    asked: Map<u64, u64>,
    swept: bool,
    objs: Seq<SeenObject>,
    k: int,
)
    requires
        distinct_guids(objs),
        0 <= k < objs.len(),
        objs[k].kind == SeenKind::GameObject,
    ensures
        ({
            let o = objs[k];
            let queries = objects_step(asked, swept, objs).1;
            &&& (queries.contains(o.guid) <==> swept && o.gameobject_flags & GO_FLAG_INTERACT_COND
                != 0 && (o.reaction is None || o.reaction.unwrap() > 1))
            &&& forall|w1: int, w2: int|
                0 <= w1 < queries.len() && 0 <= w2 < queries.len() && queries[w1] == o.guid
                    && queries[w2] == o.guid ==> w1 == w2
        }),
{
    lemma_frame_at(asked, swept, objs, k);
}

/// The questgiver-unit law: in any frame, a unit in view with the questgiver bit is queried
/// exactly when the asked set handed to the frame does not hold it at its current ask key (its
/// NPC flags and faction template) — so a sweep, which hands the frame an empty set, asks it,
/// and a change of its flags or faction re-asks it — and then exactly once; afterwards the set
/// holds it at that key, so a following frame without a sweep or a change does not ask it again.
/// Guids in view are distinct.
pub proof fn lemma_questgiver_unit_asked_on_new_key(
    asked: Map<u64, u64>,
    swept: bool,
    objs: Seq<SeenObject>,
    k: int,
)
    requires
        distinct_guids(objs),
        0 <= k < objs.len(),
        is_questgiver_unit(objs[k]),
    ensures
        ({
            let o = objs[k];
            let key = ask_key(o.npc_flags, o.faction_template);
            let (after, queries, cleared) = objects_step(asked, swept, objs);
            &&& (queries.contains(o.guid) <==> !(asked.contains_key(o.guid) && asked[o.guid]
                == key))
            &&& forall|w1: int, w2: int|
                0 <= w1 < queries.len() && 0 <= w2 < queries.len() && queries[w1] == o.guid
                    && queries[w2] == o.guid ==> w1 == w2
            &&& !cleared.contains(o.guid)
            &&& after.contains_key(o.guid) && after[o.guid] == key
        }),
{
    let g = objs[k].guid;
    let p = objs.subrange(0, k);
    assert forall|i: int| 0 <= i < p.len() implies p[i].guid != g by {
        assert(p[i] == objs[i]);
    }
    lemma_step_touches_own_guids(asked, swept, p, g);
    lemma_frame_at(asked, swept, objs, k);
    lemma_step_marks_questgivers(asked, swept, objs, k);
}

/// What one frame asks for: the guids to query, in object order; the guids whose cached status
/// goes; and whether this frame was a sweep. The app also drops the cached status of every guid
/// no longer in the world.
pub struct QueryFrame {
    pub queries: Vec<u64>,
    pub cleared: Vec<u64>,
    pub swept: bool,
}

/// The query's memory across frames.
pub struct QueryState {
    /// The last folded [`self_generation`].
    fields: u64,
    /// `fields` combined with the packet epoch; a change here is the sweep.
    generation: u64,
    /// Which guids were asked about, and the ask key they were asked at.
    asked: HashMapWithView<u64, u64>,
}

impl QueryState {
    pub closed spec fn fields(&self) -> u64 {
        self.fields
    }

    pub closed spec fn generation(&self) -> u64 {
        self.generation
    }

    pub closed spec fn asked(&self) -> Map<u64, u64> {
        self.asked@
    }

    /// Nothing asked yet, generation zero.
    pub fn new() -> (s: Self)
        ensures
            s.fields() == 0,
            s.generation() == 0,
            s.asked() == Map::<u64, u64>::empty(),
    {
        QueryState { fields: 0, generation: 0, asked: HashMapWithView::new() }
    }

    /// One frame. `self_fields` is our own store when it changed this frame (the fold is
    /// recomputed only then), `reask_epoch` the packet half of the generation, `in_world` every
    /// guid still in the world, and `objects` the objects in view, in walk order.
    pub fn step(
        &mut self,
        self_fields: Option<&SelfFields>,
        reask_epoch: u32,
        in_world: &[u64],
        objects: &[SeenObject],
    ) -> (out: QueryFrame)
        ensures
            ({
                let fields = match self_fields {
                    Some(f) => fnv_fold(FNV_OFFSET, generation_inputs(*f)),
                    None => old(self).fields(),
                };
                let generation = fields ^ ((reask_epoch as u64) << 32u64);
                let swept = old(self).generation() != generation;
                let kept = (if swept {
                    Map::<u64, u64>::empty()
                } else {
                    old(self).asked()
                }).restrict(in_world@.to_set());
                let (asked, queries, cleared) = objects_step(kept, swept, objects@);
                &&& final(self).fields() == fields
                &&& final(self).generation() == generation
                &&& final(self).asked() == asked
                &&& out.swept == swept
                &&& out.queries@ == queries
                &&& out.cleared@ == cleared
            }),
    {
        if let Some(f) = self_fields {
            self.fields = self_generation(f);
        }
        let generation = self.fields ^ ((reask_epoch as u64) << 32u64);
        let swept = self.generation != generation;
        if swept {
            self.generation = generation;
            self.asked.clear();
        }
        // Object lifetime is the other half of the key: a guid that left the world drops its
        // asked mark.
        let ghost before = self.asked@;
        let ghost fields = self.fields;
        let mut kept: HashMapWithView<u64, u64> = HashMapWithView::new();
        let mut i: usize = 0;
        while i < in_world.len()
            invariant
                i <= in_world@.len(),
                self.asked@ == before,
                self.fields == fields,
                self.generation == generation,
                kept@ == before.restrict(in_world@.subrange(0, i as int).to_set()),
            decreases in_world@.len() - i,
        {
            let g = in_world[i];
            let ghost prefix = in_world@.subrange(0, i as int);
            assert(in_world@.subrange(0, i + 1) =~= prefix.push(g));
            proof {
                lemma_push_contains(prefix, g);
            }
            assert(prefix.push(g).to_set() =~= prefix.to_set().insert(g));
            if let Some(k) = self.asked.get(&g) {
                kept.insert(g, *k);
                assert(kept@ =~= before.restrict(prefix.to_set().insert(g)));
            } else {
                assert(before.restrict(prefix.to_set().insert(g)) =~= before.restrict(prefix.to_set()));
            }
            i = i + 1;
        }
        assert(in_world@.subrange(0, in_world@.len() as int) =~= in_world@);
        self.asked = kept;
        let mut queries: Vec<u64> = Vec::new();
        let mut cleared: Vec<u64> = Vec::new();
        let ghost start = self.asked@;
        let mut j: usize = 0;
        while j < objects.len()
            invariant
                j <= objects@.len(),
                objects_step(start, swept, objects@.subrange(0, j as int)) == (self.asked@, queries@, cleared@),
                self.fields == fields,
                self.generation == generation,
            decreases objects@.len() - j,
        {
            let o = objects[j];
            assert(objects@.subrange(0, j + 1).drop_last() =~= objects@.subrange(0, j as int));
            match o.kind {
                SeenKind::Unit => {
                    if o.npc_flags & NPC_FLAG_QUESTGIVER == 0 {
                        self.asked.remove(&o.guid);
                        cleared.push(o.guid);
                    } else {
                        let key = unit_ask_key(o.npc_flags, o.faction_template);
                        let same = match self.asked.get(&o.guid) {
                            Some(k) => *k == key,
                            None => false,
                        };
                        self.asked.insert(o.guid, key);
                        if !same {
                            queries.push(o.guid);
                        }
                    }
                },
                SeenKind::GameObject => {
                    if swept && o.gameobject_flags & GO_FLAG_INTERACT_COND != 0 {
                        let passes = match o.reaction {
                            Some(r) => r > 1,
                            None => true,
                        };
                        if passes {
                            queries.push(o.guid);
                        }
                    }
                },
                SeenKind::Other => {},
            }
            j = j + 1;
        }
        assert(objects@.subrange(0, objects@.len() as int) =~= objects@);
        QueryFrame { queries, cleared, swept }
    }
}

} // verus!
