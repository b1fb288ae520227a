//! The linear constraints of the layer model: every modifier key placed
//! once, at most one modifier per layer, a key in a layer only with that
//! layer's modifier, every layer key placed once in the base layer or a
//! layer, the modifier only on a block with a modifier key,
//! layer one only with a modifier, and a key at one block in every layer.
use crate::keys::KeyId;
use crate::v2::{LayerConfig, LayerVariables};
use vstd::prelude::*;

verus! {

/// How the sum of a constraint relates to its bound.
#[derive(Debug, Clone, Copy, PartialEq, Eq, Structural)]
pub enum Relation {
    /// The sum equals the bound.
    Eq,
    /// The sum is at most the bound.
    Le,
}

/// `sum(coefficient * variable) relation rhs`.
#[derive(Debug, Clone)]
pub struct LinearConstraint {
    /// (variable number, coefficient)
    pub terms: Vec<(usize, i64)>,
    pub relation: Relation,
    pub rhs: i64,
}

/// A constraint by its terms, relation and bound.
pub open spec fn constraint_view(c: LinearConstraint) -> (Seq<(usize, i64)>, Relation, i64) {
    (c.terms@, c.relation, c.rhs)
}

/// Constraints by their views.
pub open spec fn constraints_view(cs: Seq<LinearConstraint>) -> Seq<(Seq<(usize, i64)>, Relation, i64)> {
    cs.map_values(|c: LinearConstraint| constraint_view(c))
}

/// The number of the first variable named `k` in `v`, if any.
pub open spec fn lookup_var<K>(v: Seq<(K, usize)>, k: K) -> Option<usize>
    decreases v.len(),
{
    if v.len() == 0 {
        None
    } else if v[0].0 == k {
        Some(v[0].1)
    } else {
        lookup_var(v.drop_first(), k)
    }
}

/// The term `(v, c)` when there is a variable `v`.
pub open spec fn term_if(v: Option<usize>, c: i64) -> Seq<(usize, i64)> {
    match v {
        Some(x) => seq![(x, c)],
        None => Seq::empty(),
    }
}

/// The placement variables of the modifier key `k`, each with coefficient 1.
pub open spec fn mod_terms(mv: Seq<((KeyId, usize), usize)>, k: KeyId) -> Seq<(usize, i64)>
    decreases mv.len(),
{
    if mv.len() == 0 {
        Seq::empty()
    } else {
        mod_terms(mv.drop_last(), k) + if mv.last().0.0 == k {
            seq![(mv.last().1, 1i64)]
        } else {
            Seq::empty()
        }
    }
}

/// The modifier variables of layer `l` at the anchors, coefficient `c`.
pub open spec fn q_terms(q: Seq<((usize, usize), usize)>, l: usize, anchors: Seq<usize>, c: i64) -> Seq<
    (usize, i64),
>
    decreases anchors.len(),
{
    if anchors.len() == 0 {
        Seq::empty()
    } else {
        q_terms(q, l, anchors.drop_last(), c) + term_if(lookup_var(q, (l, anchors.last())), c)
    }
}

/// Each modifier key's placement at the anchor `m`, coefficient -1.
pub open spec fn mod_anchor_terms(mv: Seq<((KeyId, usize), usize)>, mods: Seq<KeyId>, m: usize) -> Seq<
    (usize, i64),
>
    decreases mods.len(),
{
    if mods.len() == 0 {
        Seq::empty()
    } else {
        mod_anchor_terms(mv, mods.drop_last(), m) + term_if(lookup_var(mv, (mods.last(), m)), -1i64)
    }
}

/// The layer key variables of `key` in layer `l` at block `u`, over the
/// anchors, each with coefficient 1.
pub open spec fn z_terms(
    z: Seq<((KeyId, usize, usize, usize), usize)>,
    key: KeyId,
    l: usize,
    u: usize,
    anchors: Seq<usize>,
) -> Seq<(usize, i64)>
    decreases anchors.len(),
{
    if anchors.len() == 0 {
        Seq::empty()
    } else {
        z_terms(z, key, l, u, anchors.drop_last()) + term_if(lookup_var(z, (key, l, u, anchors.last())), 1)
    }
}

/// Each modifier key is placed once: for each modifier key, the sum of
/// its placement variables is 1.
pub open spec fn placed_once(mv: Seq<((KeyId, usize), usize)>, mods: Seq<KeyId>) -> Seq<
    (Seq<(usize, i64)>, Relation, i64),
> {
    Seq::new(mods.len(), |a: int| (mod_terms(mv, mods[a]), Relation::Eq, 1i64))
}

/// Each layer has at most one modifier: for each layer `1..=layers`, the
/// sum of its modifier variables is at most 1.
pub open spec fn one_modifier_per_layer(q: Seq<((usize, usize), usize)>, layers: nat, anchors: Seq<usize>) -> Seq<
    (Seq<(usize, i64)>, Relation, i64),
> {
    Seq::new(layers, |i: int| (q_terms(q, (i + 1) as usize, anchors, 1), Relation::Le, 1i64))
}

/// A key is in a layer only with the layer's modifier at its anchor: for
/// each layer key variable with a modifier variable, z - q <= 0.
pub open spec fn needs_modifier(z: Seq<((KeyId, usize, usize, usize), usize)>, q: Seq<((usize, usize), usize)>) -> Seq<
    (Seq<(usize, i64)>, Relation, i64),
>
    decreases z.len(),
{
    if z.len() == 0 {
        Seq::empty()
    } else {
        let e = z.last();
        needs_modifier(z.drop_last(), q) + if e.0.1 >= 1 {
            match lookup_var(q, (e.0.1, e.0.3)) {
                Some(qv) => seq![(seq![(e.1, 1i64), (qv, -1i64)], Relation::Le, 0i64)],
                None => Seq::empty(),
            }
        } else {
            Seq::empty()
        }
    }
}

/// The base-layer placement variables of `k`, each with coefficient 1.
pub open spec fn base_terms(x: Seq<(KeyId, usize)>, k: KeyId) -> Seq<(usize, i64)>
    decreases x.len(),
{
    if x.len() == 0 {
        Seq::empty()
    } else {
        base_terms(x.drop_last(), k) + if x.last().0 == k {
            seq![(x.last().1, 1i64)]
        } else {
            Seq::empty()
        }
    }
}

/// The layer key variables of `k` in every layer, block and anchor, each
/// with coefficient 1.
pub open spec fn key_layer_terms(z: Seq<((KeyId, usize, usize, usize), usize)>, k: KeyId) -> Seq<(usize, i64)>
    decreases z.len(),
{
    if z.len() == 0 {
        Seq::empty()
    } else {
        key_layer_terms(z.drop_last(), k) + if z.last().0.0 == k {
            seq![(z.last().1, 1i64)]
        } else {
            Seq::empty()
        }
    }
}

/// Each layer key is placed exactly once: for each key, the sum of its
/// base-layer placement variables and of its layer key variables is 1.
pub open spec fn symbol_placed_once(
    x: Seq<(KeyId, usize)>,
    z: Seq<((KeyId, usize, usize, usize), usize)>,
    keys: Seq<KeyId>,
) -> Seq<(Seq<(usize, i64)>, Relation, i64)> {
    Seq::new(keys.len(), |a: int| (base_terms(x, keys[a]) + key_layer_terms(z, keys[a]), Relation::Eq, 1i64))
}

/// For layer `l` and each anchor with a modifier variable, that variable
/// minus the modifier keys placed at the anchor is at most 0.
pub open spec fn modifier_on_key_layer(
    q: Seq<((usize, usize), usize)>,
    mv: Seq<((KeyId, usize), usize)>,
    mods: Seq<KeyId>,
    l: usize,
    anchors: Seq<usize>,
) -> Seq<(Seq<(usize, i64)>, Relation, i64)>
    decreases anchors.len(),
{
    if anchors.len() == 0 {
        Seq::empty()
    } else {
        let m = anchors.last();
        modifier_on_key_layer(q, mv, mods, l, anchors.drop_last()) + match lookup_var(q, (l, m)) {
            Some(qv) => seq![(seq![(qv, 1i64)] + mod_anchor_terms(mv, mods, m), Relation::Le, 0i64)],
            None => Seq::empty(),
        }
    }
}

/// The modifier of a layer stands on a block with a modifier key, for the
/// layers `1..=layers`.
pub open spec fn modifier_on_key(
    q: Seq<((usize, usize), usize)>,
    mv: Seq<((KeyId, usize), usize)>,
    mods: Seq<KeyId>,
    layers: nat,
    anchors: Seq<usize>,
) -> Seq<(Seq<(usize, i64)>, Relation, i64)>
    decreases layers,
{
    if layers == 0 {
        Seq::empty()
    } else {
        modifier_on_key(q, mv, mods, (layers - 1) as nat, anchors) + modifier_on_key_layer(
            q,
            mv,
            mods,
            layers as usize,
            anchors,
        )
    }
}

/// The layer key variables of layer 1, each with coefficient 1.
pub open spec fn layer_one_terms(z: Seq<((KeyId, usize, usize, usize), usize)>) -> Seq<(usize, i64)>
    decreases z.len(),
{
    if z.len() == 0 {
        Seq::empty()
    } else {
        layer_one_terms(z.drop_last()) + if z.last().0.1 == 1 {
            seq![(z.last().1, 1i64)]
        } else {
            Seq::empty()
        }
    }
}

/// Layer 1 is used only with a modifier: the layer one keys minus ten
/// times its modifiers is at most 0 (when there is a layer).
pub open spec fn layer_one_needs_modifier(
    z: Seq<((KeyId, usize, usize, usize), usize)>,
    q: Seq<((usize, usize), usize)>,
    layers: nat,
    anchors: Seq<usize>,
) -> Seq<(Seq<(usize, i64)>, Relation, i64)> {
    if layers >= 1 {
        seq![(layer_one_terms(z) + q_terms(q, 1, anchors, -10i64), Relation::Le, 0i64)]
    } else {
        Seq::empty()
    }
}

/// The largest block of the layer key variables (0 when there is none).
pub open spec fn max_block(z: Seq<((KeyId, usize, usize, usize), usize)>) -> usize
    decreases z.len(),
{
    if z.len() == 0 {
        0
    } else {
        let m = max_block(z.drop_last());
        if z.last().0.2 > m {
            z.last().0.2
        } else {
            m
        }
    }
}

/// The constraint that `key` is not at block `u1` of layer `l1` and block
/// `u2` of layer `l2` at once.
pub open spec fn same_block_pair(
    z: Seq<((KeyId, usize, usize, usize), usize)>,
    anchors: Seq<usize>,
    key: KeyId,
    l1: usize,
    l2: usize,
    u1: usize,
    u2: usize,
) -> (Seq<(usize, i64)>, Relation, i64) {
    (z_terms(z, key, l1, u1, anchors) + z_terms(z, key, l2, u2, anchors), Relation::Le, 1i64)
}

/// The pairs for blocks `u2 < count` other than `u1`.
pub open spec fn same_block_u2(
    z: Seq<((KeyId, usize, usize, usize), usize)>,
    anchors: Seq<usize>,
    key: KeyId,
    l1: usize,
    l2: usize,
    u1: usize,
    count: nat,
) -> Seq<(Seq<(usize, i64)>, Relation, i64)>
    decreases count,
{
    if count == 0 {
        Seq::empty()
    } else {
        same_block_u2(z, anchors, key, l1, l2, u1, (count - 1) as nat) + if u1 != count - 1 {
            seq![same_block_pair(z, anchors, key, l1, l2, u1, (count - 1) as usize)]
        } else {
            Seq::empty()
        }
    }
}

/// The pairs for blocks `u1 < count` and every `u2` below `blocks`.
pub open spec fn same_block_u1(
    z: Seq<((KeyId, usize, usize, usize), usize)>,
    anchors: Seq<usize>,
    key: KeyId,
    l1: usize,
    l2: usize,
    count: nat,
    blocks: nat,
) -> Seq<(Seq<(usize, i64)>, Relation, i64)>
    decreases count,
{
    if count == 0 {
        Seq::empty()
    } else {
        same_block_u1(z, anchors, key, l1, l2, (count - 1) as nat, blocks) + same_block_u2(
            z,
            anchors,
            key,
            l1,
            l2,
            (count - 1) as usize,
            blocks,
        )
    }
}

/// The pairs for the layers `l1 < l2 <= top`.
pub open spec fn same_block_l2(
    z: Seq<((KeyId, usize, usize, usize), usize)>,
    anchors: Seq<usize>,
    key: KeyId,
    l1: nat,
    top: nat,
    blocks: nat,
) -> Seq<(Seq<(usize, i64)>, Relation, i64)>
    decreases top,
{
    if top <= l1 {
        Seq::empty()
    } else {
        same_block_l2(z, anchors, key, l1, (top - 1) as nat, blocks) + same_block_u1(
            z,
            anchors,
            key,
            l1 as usize,
            top as usize,
            blocks,
            blocks,
        )
    }
}

/// The pairs of `key` for the layers `l1 <= top` and every `l2` above them
/// up to `layers`.
pub open spec fn same_block_l1(
    z: Seq<((KeyId, usize, usize, usize), usize)>,
    anchors: Seq<usize>,
    key: KeyId,
    top: nat,
    layers: nat,
    blocks: nat,
) -> Seq<(Seq<(usize, i64)>, Relation, i64)>
    decreases top,
{
    if top == 0 {
        Seq::empty()
    } else {
        same_block_l1(z, anchors, key, (top - 1) as nat, layers, blocks) + same_block_l2(
            z,
            anchors,
            key,
            top,
            layers,
            blocks,
        )
    }
}

/// A key stands at one block in every layer: for each key, each two
/// layers `l1 < l2` and each two different blocks, the key is not at both.
pub open spec fn same_block_all(
    z: Seq<((KeyId, usize, usize, usize), usize)>,
    anchors: Seq<usize>,
    keys: Seq<KeyId>,
    layers: nat,
    blocks: nat,
) -> Seq<(Seq<(usize, i64)>, Relation, i64)>
    decreases keys.len(),
{
    if keys.len() == 0 {
        Seq::empty()
    } else {
        same_block_all(z, anchors, keys.drop_last(), layers, blocks) + same_block_l1(
            z,
            anchors,
            keys.last(),
            layers,
            layers,
            blocks,
        )
    }
}

/// All the layer constraints, group after group.
pub open spec fn spec_layer_constraints(
    lv: LayerVariables,
    cfg: LayerConfig,
    mods: Seq<KeyId>,
    keys: Seq<KeyId>,
    base: Seq<(KeyId, usize)>,
) -> Seq<(Seq<(usize, i64)>, Relation, i64)> {
    let q = lv.q_vars@;
    let z = lv.z_vars@;
    let mv = lv.modifier_placement_vars@;
    let anchors = cfg.modifier_anchors@;
    let layers = cfg.max_layers as nat;
    placed_once(mv, mods) + one_modifier_per_layer(q, layers, anchors) + needs_modifier(z, q)
        + symbol_placed_once(base, z, keys) + modifier_on_key(q, mv, mods, layers, anchors) + layer_one_needs_modifier(z, q, layers, anchors)
        + same_block_all(z, anchors, keys, layers, (max_block(z) + 1) as nat)
}

/// The number of the first modifier variable (layer `l`, anchor `m`).
fn find_q(q: &Vec<((usize, usize), usize)>, l: usize, m: usize) -> (r: Option<usize>)
    ensures
        r == lookup_var(q@, (l, m)),
{
    let mut i: usize = 0;
    assert(q@.skip(0) =~= q@);
    while i < q.len()
        invariant
            i <= q@.len(),
            lookup_var(q@, (l, m)) == lookup_var(q@.skip(i as int), (l, m)),
        decreases q@.len() - i,
    {
        proof {
            assert(q@.skip(i as int).drop_first() =~= q@.skip(i + 1));
        }
        if q[i].0.0 == l && q[i].0.1 == m {
            return Some(q[i].1);
        }
        i = i + 1;
    }
    None
}

/// The number of the first placement variable (modifier key `k`, block `u`).
fn find_mv(mv: &Vec<((KeyId, usize), usize)>, k: KeyId, u: usize) -> (r: Option<usize>)
    ensures
        r == lookup_var(mv@, (k, u)),
{
    let mut i: usize = 0;
    assert(mv@.skip(0) =~= mv@);
    while i < mv.len()
        invariant
            i <= mv@.len(),
            lookup_var(mv@, (k, u)) == lookup_var(mv@.skip(i as int), (k, u)),
        decreases mv@.len() - i,
    {
        proof {
            assert(mv@.skip(i as int).drop_first() =~= mv@.skip(i + 1));
        }
        if mv[i].0.0 == k && mv[i].0.1 == u {
            return Some(mv[i].1);
        }
        i = i + 1;
    }
    None
}

/// The number of the first layer key variable (key, layer, block, anchor).
fn find_z(z: &Vec<((KeyId, usize, usize, usize), usize)>, k: KeyId, l: usize, u: usize, m: usize) -> (r: Option<usize>)
    ensures
        r == lookup_var(z@, (k, l, u, m)),
{
    let mut i: usize = 0;
    assert(z@.skip(0) =~= z@);
    while i < z.len()
        invariant
            i <= z@.len(),
            lookup_var(z@, (k, l, u, m)) == lookup_var(z@.skip(i as int), (k, l, u, m)),
        decreases z@.len() - i,
    {
        proof {
            assert(z@.skip(i as int).drop_first() =~= z@.skip(i + 1));
        }
        if z[i].0.0 == k && z[i].0.1 == l && z[i].0.2 == u && z[i].0.3 == m {
            return Some(z[i].1);
        }
        i = i + 1;
    }
    None
}

/// Appends the term `(v, c)` when there is a variable `v`.
fn push_term_if(terms: &mut Vec<(usize, i64)>, v: Option<usize>, c: i64)
    ensures
        final(terms)@ == old(terms)@ + term_if(v, c),
{
    match v {
        Some(x) => {
            terms.push((x, c));
            assert(final(terms)@ =~= old(terms)@ + term_if(v, c));
        },
        None => {
            assert(old(terms)@ + term_if(v, c) =~= old(terms)@);
        },
    }
}

/// Appends the constraint `terms relation rhs`.
fn push_constraint(out: &mut Vec<LinearConstraint>, terms: Vec<(usize, i64)>, relation: Relation, rhs: i64)
    ensures
        constraints_view(final(out)@) == constraints_view(old(out)@).push((terms@, relation, rhs)),
{
    let ghost t = terms@;
    out.push(LinearConstraint { terms, relation, rhs });
    assert(constraints_view(final(out)@) =~= constraints_view(old(out)@).push((t, relation, rhs)));
}

/// The placement variables of the modifier key `k`.
fn mod_terms_of(mv: &Vec<((KeyId, usize), usize)>, k: KeyId) -> (t: Vec<(usize, i64)>)
    ensures
        t@ == mod_terms(mv@, k),
{
    let mut t: Vec<(usize, i64)> = Vec::new();
    let mut i: usize = 0;
    while i < mv.len()
        invariant
            i <= mv@.len(),
            t@ == mod_terms(mv@.take(i as int), k),
        decreases mv@.len() - i,
    {
        proof {
            assert(mv@.take(i + 1).drop_last() =~= mv@.take(i as int));
            assert(mv@.take(i + 1).last() == mv@[i as int]);
        }
        if mv[i].0.0 == k {
            t.push((mv[i].1, 1));
        }
        proof {
            assert(t@ =~= mod_terms(mv@.take(i + 1), k));
        }
        i = i + 1;
    }
    assert(mv@.take(i as int) =~= mv@);
    t
}

/// The modifier variables of layer `l` at the anchors, coefficient `c`.
fn q_terms_of(q: &Vec<((usize, usize), usize)>, l: usize, anchors: &Vec<usize>, c: i64) -> (t: Vec<(usize, i64)>)
    ensures
        t@ == q_terms(q@, l, anchors@, c),
{
    let mut t: Vec<(usize, i64)> = Vec::new();
    let mut i: usize = 0;
    while i < anchors.len()
        invariant
            i <= anchors@.len(),
            t@ == q_terms(q@, l, anchors@.take(i as int), c),
        decreases anchors@.len() - i,
    {
        proof {
            assert(anchors@.take(i + 1).drop_last() =~= anchors@.take(i as int));
            assert(anchors@.take(i + 1).last() == anchors@[i as int]);
        }
        let v = find_q(q, l, anchors[i]);
        push_term_if(&mut t, v, c);
        i = i + 1;
    }
    assert(anchors@.take(i as int) =~= anchors@);
    t
}

/// Each modifier key's placement at the anchor `m`, coefficient -1.
fn mod_anchor_terms_of(mv: &Vec<((KeyId, usize), usize)>, mods: &Vec<KeyId>, m: usize) -> (t: Vec<(usize, i64)>)
    ensures
        t@ == mod_anchor_terms(mv@, mods@, m),
{
    let mut t: Vec<(usize, i64)> = Vec::new();
    let mut i: usize = 0;
    while i < mods.len()
        invariant
            i <= mods@.len(),
            t@ == mod_anchor_terms(mv@, mods@.take(i as int), m),
        decreases mods@.len() - i,
    {
        proof {
            assert(mods@.take(i + 1).drop_last() =~= mods@.take(i as int));
            assert(mods@.take(i + 1).last() == mods@[i as int]);
        }
        let v = find_mv(mv, mods[i], m);
        push_term_if(&mut t, v, -1);
        i = i + 1;
    }
    assert(mods@.take(i as int) =~= mods@);
    t
}

/// The layer key variables of `key` in layer `l` at block `u`.
fn z_terms_of(
    z: &Vec<((KeyId, usize, usize, usize), usize)>,
    key: KeyId,
    l: usize,
    u: usize,
    anchors: &Vec<usize>,
    t: &mut Vec<(usize, i64)>,
)
    ensures
        final(t)@ == old(t)@ + z_terms(z@, key, l, u, anchors@),
{
    let ghost start = t@;
    let mut i: usize = 0;
    while i < anchors.len()
        invariant
            i <= anchors@.len(),
            t@ == start + z_terms(z@, key, l, u, anchors@.take(i as int)),
        decreases anchors@.len() - i,
    {
        proof {
            assert(anchors@.take(i + 1).drop_last() =~= anchors@.take(i as int));
            assert(anchors@.take(i + 1).last() == anchors@[i as int]);
        }
        let v = find_z(z, key, l, u, anchors[i]);
        push_term_if(t, v, 1);
        proof {
            assert(t@ =~= start + z_terms(z@, key, l, u, anchors@.take(i + 1)));
        }
        i = i + 1;
    }
    assert(anchors@.take(i as int) =~= anchors@);
}

/// The layer key variables of layer 1.
fn layer_one_terms_of(z: &Vec<((KeyId, usize, usize, usize), usize)>) -> (t: Vec<(usize, i64)>)
    ensures
        t@ == layer_one_terms(z@),
{
    let mut t: Vec<(usize, i64)> = Vec::new();
    let mut i: usize = 0;
    while i < z.len()
        invariant
            i <= z@.len(),
            t@ == layer_one_terms(z@.take(i as int)),
        decreases z@.len() - i,
    {
        proof {
            assert(z@.take(i + 1).drop_last() =~= z@.take(i as int));
            assert(z@.take(i + 1).last() == z@[i as int]);
        }
        if z[i].0.1 == 1 {
            t.push((z[i].1, 1));
        }
        proof {
            assert(t@ =~= layer_one_terms(z@.take(i + 1)));
        }
        i = i + 1;
    }
    assert(z@.take(i as int) =~= z@);
    t
}

/// The largest block of the layer key variables.
fn max_block_of(z: &Vec<((KeyId, usize, usize, usize), usize)>) -> (m: usize)
    ensures
        m == max_block(z@),
{
    let mut m: usize = 0;
    let mut i: usize = 0;
    while i < z.len()
        invariant
            i <= z@.len(),
            m == max_block(z@.take(i as int)),
        decreases z@.len() - i,
    {
        proof {
            assert(z@.take(i + 1).drop_last() =~= z@.take(i as int));
            assert(z@.take(i + 1).last() == z@[i as int]);
        }
        if z[i].0.2 > m {
            m = z[i].0.2;
        }
        i = i + 1;
    }
    assert(z@.take(i as int) =~= z@);
    m
}

/// Appends: each modifier key placed once.
fn add_placed_once(out: &mut Vec<LinearConstraint>, mv: &Vec<((KeyId, usize), usize)>, mods: &Vec<KeyId>)
    ensures
        constraints_view(final(out)@) == constraints_view(old(out)@) + placed_once(mv@, mods@),
{
    let ghost base = constraints_view(out@);
    let mut a: usize = 0;
    while a < mods.len()
        invariant
            a <= mods@.len(),
            constraints_view(out@) == base + placed_once(mv@, mods@).take(a as int),
        decreases mods@.len() - a,
    {
        let terms = mod_terms_of(mv, mods[a]);
        push_constraint(out, terms, Relation::Eq, 1);
        a = a + 1;
        assert(constraints_view(out@) =~= base + placed_once(mv@, mods@).take(a as int));
    }
    assert(placed_once(mv@, mods@).take(a as int) =~= placed_once(mv@, mods@));
}

/// Appends: at most one modifier per layer.
fn add_one_modifier_per_layer(
    out: &mut Vec<LinearConstraint>,
    q: &Vec<((usize, usize), usize)>,
    layers: usize,
    anchors: &Vec<usize>,
)
    ensures
        constraints_view(final(out)@) == constraints_view(old(out)@) + one_modifier_per_layer(
            q@,
            layers as nat,
            anchors@,
        ),
{
    let ghost base = constraints_view(out@);
    let ghost all = one_modifier_per_layer(q@, layers as nat, anchors@);
    let mut l: usize = 0;
    while l < layers
        invariant
            l <= layers,
            all == one_modifier_per_layer(q@, layers as nat, anchors@),
            constraints_view(out@) == base + all.take(l as int),
        decreases layers - l,
    {
        let terms = q_terms_of(q, l + 1, anchors, 1);
        push_constraint(out, terms, Relation::Le, 1);
        l = l + 1;
        assert(constraints_view(out@) =~= base + all.take(l as int));
    }
    assert(all.take(l as int) =~= all);
}

/// Appends: a layer key only with its modifier.
fn add_needs_modifier(out: &mut Vec<LinearConstraint>, z: &Vec<((KeyId, usize, usize, usize), usize)>, q: &Vec<((usize, usize), usize)>)
    ensures
        constraints_view(final(out)@) == constraints_view(old(out)@) + needs_modifier(z@, q@),
{
    let ghost base = constraints_view(out@);
    let mut i: usize = 0;
    while i < z.len()
        invariant
            i <= z@.len(),
            constraints_view(out@) == base + needs_modifier(z@.take(i as int), q@),
        decreases z@.len() - i,
    {
        proof {
            assert(z@.take(i + 1).drop_last() =~= z@.take(i as int));
            assert(z@.take(i + 1).last() == z@[i as int]);
        }
        let (name, var) = z[i];
        let ghost before = constraints_view(out@);
        if name.1 >= 1 {
            match find_q(q, name.1, name.3) {
                Some(qv) => {
                    let terms = vec![(var, 1i64), (qv, -1i64)];
                    assert(terms@ =~= seq![(var, 1i64), (qv, -1i64)]);
                    push_constraint(out, terms, Relation::Le, 0);
                },
                None => {},
            }
        }
        proof {
            assert(constraints_view(out@) =~= base + needs_modifier(z@.take(i + 1), q@));
        }
        i = i + 1;
    }
    assert(z@.take(i as int) =~= z@);
}

/// Appends the terms of `key`: its base-layer placement variables, then
/// its layer key variables.
fn symbol_terms_of(
    x: &Vec<(KeyId, usize)>,
    z: &Vec<((KeyId, usize, usize, usize), usize)>,
    key: KeyId,
) -> (t: Vec<(usize, i64)>)
    ensures
        t@ == base_terms(x@, key) + key_layer_terms(z@, key),
{
    let mut t: Vec<(usize, i64)> = Vec::new();
    let mut i: usize = 0;
    while i < x.len()
        invariant
            i <= x@.len(),
            t@ == base_terms(x@.take(i as int), key),
        decreases x@.len() - i,
    {
        proof {
            assert(x@.take(i + 1).drop_last() =~= x@.take(i as int));
            assert(x@.take(i + 1).last() == x@[i as int]);
        }
        if x[i].0 == key {
            t.push((x[i].1, 1));
        }
        proof {
            assert(t@ =~= base_terms(x@.take(i + 1), key));
        }
        i = i + 1;
    }
    assert(x@.take(i as int) =~= x@);
    let ghost first = t@;
    let mut j: usize = 0;
    while j < z.len()
        invariant
            j <= z@.len(),
            first == base_terms(x@, key),
            t@ == first + key_layer_terms(z@.take(j as int), key),
        decreases z@.len() - j,
    {
        proof {
            assert(z@.take(j + 1).drop_last() =~= z@.take(j as int));
            assert(z@.take(j + 1).last() == z@[j as int]);
        }
        if z[j].0.0 == key {
            t.push((z[j].1, 1));
        }
        proof {
            assert(t@ =~= first + key_layer_terms(z@.take(j + 1), key));
        }
        j = j + 1;
    }
    assert(z@.take(j as int) =~= z@);
    t
}

/// Appends: each layer key placed exactly once, in the base layer or in a
/// layer.
fn add_symbol_placed_once(
    out: &mut Vec<LinearConstraint>,
    x: &Vec<(KeyId, usize)>,
    z: &Vec<((KeyId, usize, usize, usize), usize)>,
    keys: &Vec<KeyId>,
)
    ensures
        constraints_view(final(out)@) == constraints_view(old(out)@) + symbol_placed_once(x@, z@, keys@),
{
    let ghost base = constraints_view(out@);
    let mut a: usize = 0;
    while a < keys.len()
        invariant
            a <= keys@.len(),
            constraints_view(out@) == base + symbol_placed_once(x@, z@, keys@).take(a as int),
        decreases keys@.len() - a,
    {
        let terms = symbol_terms_of(x, z, keys[a]);
        push_constraint(out, terms, Relation::Eq, 1);
        a = a + 1;
        assert(constraints_view(out@) =~= base + symbol_placed_once(x@, z@, keys@).take(a as int));
    }
    assert(symbol_placed_once(x@, z@, keys@).take(a as int) =~= symbol_placed_once(x@, z@, keys@));
}

/// Appends: the modifiers stand on blocks with a modifier key.
fn add_modifier_on_key(
    out: &mut Vec<LinearConstraint>,
    q: &Vec<((usize, usize), usize)>,
    mv: &Vec<((KeyId, usize), usize)>,
    mods: &Vec<KeyId>,
    layers: usize,
    anchors: &Vec<usize>,
)
    ensures
        constraints_view(final(out)@) == constraints_view(old(out)@) + modifier_on_key(
            q@,
            mv@,
            mods@,
            layers as nat,
            anchors@,
        ),
{
    let ghost base = constraints_view(out@);
    let mut l: usize = 0;
    while l < layers
        invariant
            l <= layers,
            constraints_view(out@) == base + modifier_on_key(q@, mv@, mods@, l as nat, anchors@),
        decreases layers - l,
    {
        let layer = l + 1;
        let ghost mid = constraints_view(out@);
        let mut j: usize = 0;
        while j < anchors.len()
            invariant
                j <= anchors@.len(),
                constraints_view(out@) == mid + modifier_on_key_layer(q@, mv@, mods@, layer, anchors@.take(j as int)),
            decreases anchors@.len() - j,
        {
            proof {
                assert(anchors@.take(j + 1).drop_last() =~= anchors@.take(j as int));
                assert(anchors@.take(j + 1).last() == anchors@[j as int]);
            }
            let m = anchors[j];
            match find_q(q, layer, m) {
                Some(qv) => {
                    let mut terms: Vec<(usize, i64)> = Vec::new();
                    terms.push((qv, 1));
                    let rest = mod_anchor_terms_of(mv, mods, m);
                    let mut k: usize = 0;
                    while k < rest.len()
                        invariant
                            k <= rest@.len(),
                            terms@ == seq![(qv, 1i64)] + rest@.take(k as int),
                        decreases rest@.len() - k,
                    {
                        terms.push(rest[k]);
                        k = k + 1;
                        assert(terms@ =~= seq![(qv, 1i64)] + rest@.take(k as int));
                    }
                    assert(rest@.take(k as int) =~= rest@);
                    push_constraint(out, terms, Relation::Le, 0);
                },
                None => {},
            }
            proof {
                assert(constraints_view(out@) =~= mid + modifier_on_key_layer(
                    q@,
                    mv@,
                    mods@,
                    layer,
                    anchors@.take(j + 1),
                ));
            }
            j = j + 1;
        }
        proof {
            assert(anchors@.take(j as int) =~= anchors@);
            assert(constraints_view(out@) =~= base + modifier_on_key(q@, mv@, mods@, layer as nat, anchors@));
        }
        l = l + 1;
    }
}

/// Appends: the pairs of `key` in layers `l1`, `l2` for blocks `u1` and
/// each `u2` below `blocks` other than `u1`.
fn add_same_block_u2(
    out: &mut Vec<LinearConstraint>,
    z: &Vec<((KeyId, usize, usize, usize), usize)>,
    anchors: &Vec<usize>,
    key: KeyId,
    l1: usize,
    l2: usize,
    u1: usize,
    blocks: usize,
)
    ensures
        constraints_view(final(out)@) == constraints_view(old(out)@) + same_block_u2(
            z@,
            anchors@,
            key,
            l1,
            l2,
            u1,
            blocks as nat,
        ),
{
    let ghost base = constraints_view(out@);
    let mut u2: usize = 0;
    while u2 < blocks
        invariant
            u2 <= blocks,
            constraints_view(out@) == base + same_block_u2(z@, anchors@, key, l1, l2, u1, u2 as nat),
        decreases blocks - u2,
    {
        if u1 != u2 {
            let mut terms: Vec<(usize, i64)> = Vec::new();
            z_terms_of(z, key, l1, u1, anchors, &mut terms);
            z_terms_of(z, key, l2, u2, anchors, &mut terms);
            assert(terms@ =~= z_terms(z@, key, l1, u1, anchors@) + z_terms(z@, key, l2, u2, anchors@));
            push_constraint(out, terms, Relation::Le, 1);
        }
        proof {
            assert(constraints_view(out@) =~= base + same_block_u2(z@, anchors@, key, l1, l2, u1, (u2 + 1) as nat));
        }
        u2 = u2 + 1;
    }
}

/// Appends: the pairs of `key` for every key of `keys` and every two layers
/// and blocks.
fn add_same_block_all(
    out: &mut Vec<LinearConstraint>,
    z: &Vec<((KeyId, usize, usize, usize), usize)>,
    anchors: &Vec<usize>,
    keys: &Vec<KeyId>,
    layers: usize,
    blocks: usize,
)
    ensures
        constraints_view(final(out)@) == constraints_view(old(out)@) + same_block_all(
            z@,
            anchors@,
            keys@,
            layers as nat,
            blocks as nat,
        ),
{
    let ghost base = constraints_view(out@);
    let mut c: usize = 0;
    while c < keys.len()
        invariant
            c <= keys@.len(),
            constraints_view(out@) == base + same_block_all(z@, anchors@, keys@.take(c as int), layers as nat, blocks as nat),
        decreases keys@.len() - c,
    {
        let key = keys[c];
        proof {
            assert(keys@.take(c + 1).drop_last() =~= keys@.take(c as int));
            assert(keys@.take(c + 1).last() == key);
        }
        let ghost b1 = constraints_view(out@);
        let mut a: usize = 0;
        while a < layers
            invariant
                a <= layers,
                constraints_view(out@) == b1 + same_block_l1(z@, anchors@, key, a as nat, layers as nat, blocks as nat),
            decreases layers - a,
        {
            let l1 = a + 1;
            let ghost b2 = constraints_view(out@);
            let mut b: usize = l1;
            while b < layers
                invariant
                    l1 <= b <= layers,
                    constraints_view(out@) == b2 + same_block_l2(z@, anchors@, key, l1 as nat, b as nat, blocks as nat),
                decreases layers - b,
            {
                let l2 = b + 1;
                let ghost b3 = constraints_view(out@);
                let mut u1: usize = 0;
                while u1 < blocks
                    invariant
                        u1 <= blocks,
                        constraints_view(out@) == b3 + same_block_u1(z@, anchors@, key, l1, l2, u1 as nat, blocks as nat),
                    decreases blocks - u1,
                {
                    let ghost b4 = constraints_view(out@);
                    add_same_block_u2(out, z, anchors, key, l1, l2, u1, blocks);
                    proof {
                        assert(constraints_view(out@) =~= b3 + same_block_u1(
                            z@,
                            anchors@,
                            key,
                            l1,
                            l2,
                            (u1 + 1) as nat,
                            blocks as nat,
                        ));
                    }
                    u1 = u1 + 1;
                }
                proof {
                    assert(constraints_view(out@) =~= b2 + same_block_l2(
                        z@,
                        anchors@,
                        key,
                        l1 as nat,
                        l2 as nat,
                        blocks as nat,
                    ));
                }
                b = b + 1;
            }
            proof {
                assert(constraints_view(out@) =~= b1 + same_block_l1(
                    z@,
                    anchors@,
                    key,
                    l1 as nat,
                    layers as nat,
                    blocks as nat,
                ));
            }
            a = a + 1;
        }
        proof {
            assert(constraints_view(out@) =~= base + same_block_all(
                z@,
                anchors@,
                keys@.take(c + 1),
                layers as nat,
                blocks as nat,
            ));
        }
        c = c + 1;
    }
    assert(keys@.take(c as int) =~= keys@);
}

/// The layer constraints, group after group: every modifier key placed
/// once (sum = 1); at most one modifier per layer (sum <= 1); a layer key
/// only with its layer's modifier at its anchor (z - q <= 0); every layer
/// key placed exactly once, by one of its base-layer placement variables
/// `base_vars` (each a key with its variable number) or one of its layer
/// key variables (sum = 1); a modifier
/// only on a block with a modifier key (q - sum <= 0); layer one only with
/// a modifier (keys - 10 modifiers <= 0, when there is a layer); and a key
/// never at two different blocks in two layers (sum <= 1), blocks counted
/// up to the largest block of the layer key variables.
pub fn generate_layer_constraints(
    layer_vars: &LayerVariables,
    layer_cfg: &LayerConfig,
    modifier_keys: &Vec<KeyId>,
    layer_candidate_keys: &Vec<KeyId>,
    base_vars: &Vec<(KeyId, usize)>,
) -> (r: Vec<LinearConstraint>)
    requires
        max_block(layer_vars.z_vars@) < usize::MAX,
    ensures
        constraints_view(r@) == spec_layer_constraints(
            *layer_vars,
            *layer_cfg,
            modifier_keys@,
            layer_candidate_keys@,
            base_vars@,
        ),
{
    let q = &layer_vars.q_vars;
    let z = &layer_vars.z_vars;
    let mv = &layer_vars.modifier_placement_vars;
    let anchors = &layer_cfg.modifier_anchors;
    let layers = layer_cfg.max_layers;
    let mut out: Vec<LinearConstraint> = Vec::new();
    add_placed_once(&mut out, mv, modifier_keys);
    add_one_modifier_per_layer(&mut out, q, layers, anchors);
    add_needs_modifier(&mut out, z, q);
    add_symbol_placed_once(&mut out, base_vars, z, layer_candidate_keys);
    add_modifier_on_key(&mut out, q, mv, modifier_keys, layers, anchors);
    let ghost before_one = constraints_view(out@);
    if layers >= 1 {
        let mut terms = layer_one_terms_of(z);
        let rest = q_terms_of(q, 1, anchors, -10);
        let ghost first = terms@;
        let mut k: usize = 0;
        while k < rest.len()
            invariant
                k <= rest@.len(),
                terms@ == first + rest@.take(k as int),
            decreases rest@.len() - k,
        {
            terms.push(rest[k]);
            k = k + 1;
            assert(terms@ =~= first + rest@.take(k as int));
        }
        assert(rest@.take(k as int) =~= rest@);
        push_constraint(&mut out, terms, Relation::Le, 0);
    }
    assert(constraints_view(out@) =~= before_one + layer_one_needs_modifier(z@, q@, layers as nat, anchors@));
    let max_u = max_block_of(z);
    add_same_block_all(&mut out, z, anchors, layer_candidate_keys, layers, max_u + 1);
    out
}

} // verus!
