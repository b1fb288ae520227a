//! Settings and key sets of the second solver version: the digit block,
//! the bigram approaches and the keys that may go to a layer.
use crate::config::Config;
use crate::counts::count_or_zero;
use crate::csv_reader::KeyFreq;
use crate::keys::{all_movable_keys, spec_all_movable_keys, KeyId};
use crate::model::key_slot_vars;
use vstd::prelude::*;

verus! {

/// Settings of the digit block of the second solver version.
#[derive(Debug, Clone)]
pub struct DigitClusterConfig {
    pub enable_digit_cluster: bool,
    /// Keep the digits in order.
    pub enforce_order: bool,
    /// Rows where the digits may stand.
    pub allowed_rows: Vec<usize>,
}

impl Default for DigitClusterConfig {
    /// No digit block; in order; rows 0 and 1.
    fn default() -> (r: Self)
        ensures
            !r.enable_digit_cluster,
            r.enforce_order,
            r.allowed_rows@ == seq![0usize, 1usize],
    {
        let mut rows: Vec<usize> = Vec::new();
        rows.push(0);
        rows.push(1);
        assert(rows@ =~= seq![0usize, 1usize]);
        DigitClusterConfig { enable_digit_cluster: false, enforce_order: true, allowed_rows: rows }
    }
}

/// How pairs of successive keys enter the objective.
#[derive(Debug, Clone, Copy, PartialEq, Eq, Structural)]
pub enum BigramApproach {
    Disabled,
    DirectionalBucket {
        /// The number of distance bands.
        distance_buckets: usize,
        /// The number of angle bands.
        angle_buckets: usize,
    },
    TopMLinearization {
        /// How many of the most frequent pairs are modelled.
        top_m: usize,
    },
}

/// Whether `k` is a modifier key (shift, control, alt, meta or a layer key).
pub open spec fn spec_is_modifier(k: KeyId) -> bool {
    match k {
        KeyId::ShiftL | KeyId::ShiftR | KeyId::CtrlL | KeyId::CtrlR | KeyId::AltL | KeyId::AltR
        | KeyId::MetaL | KeyId::MetaR | KeyId::Modifier(_) => true,
        _ => false,
    }
}

/// Whether `key` is a modifier key (shift, control, alt, meta or a layer
/// key).
pub fn is_modifier(key: &KeyId) -> (r: bool)
    ensures
        r == spec_is_modifier(*key),
{
    match key {
        KeyId::ShiftL | KeyId::ShiftR | KeyId::CtrlL | KeyId::CtrlR | KeyId::AltL | KeyId::AltR
        | KeyId::MetaL | KeyId::MetaR | KeyId::Modifier(_) => true,
        _ => false,
    }
}

/// The keys of `ks` that are no modifiers, in order.
pub open spec fn without_modifiers(ks: Seq<KeyId>) -> Seq<KeyId>
    decreases ks.len(),
{
    if ks.len() == 0 {
        Seq::empty()
    } else {
        without_modifiers(ks.drop_last()) + if spec_is_modifier(ks.last()) {
            Seq::empty()
        } else {
            seq![ks.last()]
        }
    }
}

/// The keys that may be placed in a layer: the placed keys, arrows
/// included, but for the modifiers.
pub fn get_layer_candidate_keys(config: &Config) -> (v: Vec<KeyId>)
    ensures
        v@ == without_modifiers(
            spec_all_movable_keys(config.solver.include_digits, config.solver.include_fkeys),
        ),
{
    let all = all_movable_keys(config);
    let mut v: Vec<KeyId> = Vec::new();
    let mut i: usize = 0;
    while i < all.len()
        invariant
            i <= all@.len(),
            v@ == without_modifiers(all@.take(i as int)),
        decreases all@.len() - i,
    {
        let k = all[i];
        proof {
            assert(all@.take(i + 1).drop_last() =~= all@.take(i as int));
        }
        if !is_modifier(&k) {
            v.push(k);
        }
        i = i + 1;
    }
    assert(all@.take(i as int) =~= all@);
    v
}

/// Whether the key at index `i` of `c` ranks before the key at index `j`:
/// it has the higher count, or the same count and stands first.
pub open spec fn ranks_before(c: Seq<KeyId>, counts: Map<KeyId, u64>, i: int, j: int) -> bool {
    count_or_zero(counts, c[i]) > count_or_zero(counts, c[j]) || (count_or_zero(counts, c[i])
        == count_or_zero(counts, c[j]) && i < j)
}

/// Whether `r` lists the indices of `c` (each once, as the strict order
/// shows) from the key with the highest count down, equal counts in the
/// order of `c`.
pub open spec fn ranks_by_count(r: Seq<usize>, c: Seq<KeyId>, counts: Map<KeyId, u64>) -> bool {
    &&& r.len() == c.len()
    &&& forall|a: int| 0 <= a < r.len() ==> (#[trigger] r[a]) < c.len()
    &&& forall|a: int, b: int|
        0 <= a < b < r.len() ==> ranks_before(c, counts, #[trigger] r[a] as int, #[trigger] r[b] as int)
}

/// The keys at the first `n` indices of `r`.
pub open spec fn keys_at(r: Seq<usize>, c: Seq<KeyId>, n: nat) -> Seq<KeyId> {
    r.take(n as int).map_values(|i: usize| c[i as int])
}

/// The number of keys that a layer may take at most.
pub open spec fn top_layer_count(n: nat) -> nat {
    if n < 10 {
        n
    } else {
        10
    }
}

/// The ten keys that may go to a layer with the most presses: the keys of
/// `get_layer_candidate_keys` ordered by their counts, highest first and
/// equal counts in their order, cut after the tenth.
pub fn get_layer_candidate_keys_with_frequencies(config: &Config, freqs: &KeyFreq) -> (v: Vec<KeyId>)
    ensures
        ({
            let c = without_modifiers(
                spec_all_movable_keys(config.solver.include_digits, config.solver.include_fkeys),
            );
            exists|r: Seq<usize>|
                ranks_by_count(r, c, freqs@) && v@ == keys_at(r, c, top_layer_count(c.len()))
        }),
{
    let c = get_layer_candidate_keys(config);
    let ghost counts = freqs@;
    let mut cnt: Vec<u64> = Vec::new();
    let mut i: usize = 0;
    while i < c.len()
        invariant
            i <= c@.len(),
            counts == freqs@,
            cnt@.len() == i,
            forall|j: int| 0 <= j < i ==> cnt@[j] == count_or_zero(counts, #[trigger] c@[j]),
        decreases c@.len() - i,
    {
        cnt.push(freqs.get_count(c[i]));
        i = i + 1;
    }
    let mut r: Vec<usize> = Vec::new();
    let mut k: usize = 0;
    while k < c.len()
        invariant
            k <= c@.len(),
            cnt@.len() == c@.len(),
            forall|j: int| 0 <= j < c@.len() ==> cnt@[j] == count_or_zero(counts, #[trigger] c@[j]),
            r@.len() == k,
            forall|a: int| 0 <= a < r@.len() ==> (#[trigger] r@[a]) < k,
            forall|a: int, b: int|
                0 <= a < b < r@.len() ==> ranks_before(c@, counts, #[trigger] r@[a] as int, #[trigger] r@[b] as int),
        decreases c@.len() - k,
    {
        let mut p: usize = 0;
        while p < r.len() && cnt[r[p]] >= cnt[k]
            invariant
                k < c@.len(),
                cnt@.len() == c@.len(),
                forall|j: int| 0 <= j < c@.len() ==> cnt@[j] == count_or_zero(counts, #[trigger] c@[j]),
                p <= r@.len(),
                forall|a: int| 0 <= a < r@.len() ==> (#[trigger] r@[a]) < k,
                forall|a: int| 0 <= a < p ==> ranks_before(c@, counts, #[trigger] r@[a] as int, k as int),
            decreases r@.len() - p,
        {
            assert(cnt@[r@[p as int] as int] == count_or_zero(counts, c@[r@[p as int] as int]));
            p = p + 1;
        }
        let ghost before = r@;
        proof {
            if p < before.len() {
                assert(cnt@[before[p as int] as int] == count_or_zero(counts, c@[before[p as int] as int]));
                assert(ranks_before(c@, counts, k as int, before[p as int] as int));
            }
            assert forall|a: int| p <= a < before.len() implies ranks_before(
                c@,
                counts,
                k as int,
                #[trigger] before[a] as int,
            ) by {
                if a > p {
                    assert(ranks_before(c@, counts, before[p as int] as int, before[a] as int));
                }
            }
        }
        r.insert(p, k);
        proof {
            assert(r@ == before.insert(p as int, k));
            assert forall|a: int, b: int| 0 <= a < b < r@.len() implies ranks_before(
                c@,
                counts,
                #[trigger] r@[a] as int,
                #[trigger] r@[b] as int,
            ) by {
                if a < p && b < p {
                    assert(r@[a] == before[a] && r@[b] == before[b]);
                } else if a < p && b == p {
                    assert(r@[a] == before[a]);
                } else if a < p {
                    assert(r@[a] == before[a] && r@[b] == before[b - 1]);
                } else if a == p {
                    assert(r@[b] == before[b - 1]);
                } else {
                    assert(r@[a] == before[a - 1] && r@[b] == before[b - 1]);
                }
            }
            assert forall|a: int| 0 <= a < r@.len() implies (#[trigger] r@[a]) < k + 1 by {
                if a < p {
                    assert(r@[a] == before[a]);
                } else if a > p {
                    assert(r@[a] == before[a - 1]);
                }
            }
        }
        k = k + 1;
    }
    let n: usize = if c.len() < 10 {
        c.len()
    } else {
        10
    };
    let mut v: Vec<KeyId> = Vec::new();
    let mut a: usize = 0;
    while a < n
        invariant
            n <= r@.len(),
            r@.len() == c@.len(),
            forall|b: int| 0 <= b < r@.len() ==> (#[trigger] r@[b]) < c@.len(),
            a <= n,
            v@ == keys_at(r@, c@, a as nat),
        decreases n - a,
    {
        v.push(c[r[a]]);
        a = a + 1;
        assert(v@ =~= keys_at(r@, c@, a as nat));
    }
    assert(ranks_by_count(r@, c@, counts));
    v
}

/// The anchor blocks of the layer modifiers in the rows `rows`: blocks
/// `10 r` and `10 r + 1` of each row `r` from the third on.
pub open spec fn anchors_of_rows(rows: Seq<usize>) -> Seq<usize>
    decreases rows.len(),
{
    if rows.len() == 0 {
        Seq::empty()
    } else {
        let r = rows.last();
        anchors_of_rows(rows.drop_last()) + if r >= 3 {
            seq![(r * 10) as usize, (r * 10 + 1) as usize]
        } else {
            Seq::empty()
        }
    }
}

/// Settings of the layers (their integer part).
#[derive(Debug, Clone)]
pub struct LayerConfig {
    pub enable_layers: bool,
    /// The blocks where a layer modifier may stand.
    pub modifier_anchors: Vec<usize>,
    /// The number of layers besides the base layer.
    pub max_layers: usize,
}

impl LayerConfig {
    /// The layer settings: the anchors of the modifier rows, and one
    /// layer unless the settings give the number.
    pub fn from_config(enable: bool, modifier_rows: &Vec<usize>, max_layers: Option<usize>) -> (r: Self)
        requires
            forall|i: int| 0 <= i < modifier_rows@.len() ==> #[trigger] modifier_rows@[i] * 10 + 1 <= usize::MAX,
        ensures
            r.enable_layers == enable,
            r.modifier_anchors@ == anchors_of_rows(modifier_rows@),
            r.max_layers == match max_layers {
                Some(n) => n,
                None => 1,
            },
    {
        let mut anchors: Vec<usize> = Vec::new();
        let mut i: usize = 0;
        while i < modifier_rows.len()
            invariant
                i <= modifier_rows@.len(),
                forall|i: int| 0 <= i < modifier_rows@.len() ==> #[trigger] modifier_rows@[i] * 10 + 1 <= usize::MAX,
                anchors@ == anchors_of_rows(modifier_rows@.take(i as int)),
            decreases modifier_rows@.len() - i,
        {
            let row = modifier_rows[i];
            proof {
                assert(modifier_rows@.take(i + 1).drop_last() =~= modifier_rows@.take(i as int));
                assert(modifier_rows@.take(i + 1).last() == row);
            }
            if row >= 3 {
                anchors.push(row * 10);
                anchors.push(row * 10 + 1);
            }
            proof {
                assert(anchors@ =~= anchors_of_rows(modifier_rows@.take(i + 1)));
            }
            i = i + 1;
        }
        assert(modifier_rows@.take(i as int) =~= modifier_rows@);
        LayerConfig {
            enable_layers: enable,
            modifier_anchors: anchors,
            max_layers: match max_layers {
                Some(n) => n,
                None => 1,
            },
        }
    }
}

impl Default for LayerConfig {
    /// No layers, no anchors, three layers at most.
    fn default() -> (r: Self)
        ensures
            !r.enable_layers,
            r.modifier_anchors@.len() == 0,
            r.max_layers == 3,
    {
        LayerConfig { enable_layers: false, modifier_anchors: Vec::new(), max_layers: 3 }
    }
}

/// The layer modifier variables: for each layer `1..=layers` in turn, one
/// per anchor (layer, anchor).
pub open spec fn layer_anchor_pairs(layers: nat, anchors: Seq<usize>) -> Seq<(usize, usize)>
    decreases layers,
{
    if layers == 0 {
        Seq::empty()
    } else {
        layer_anchor_pairs((layers - 1) as nat, anchors) + anchors.map_values(
            |m: usize| (layers as usize, m),
        )
    }
}

/// The layer variables of `key` in layer `layer` over the first `blocks`
/// blocks: for each block in turn, one per anchor.
pub open spec fn key_layer_blocks(key: KeyId, layer: nat, blocks: nat, anchors: Seq<usize>) -> Seq<
    (KeyId, usize, usize, usize),
>
    decreases blocks,
{
    if blocks == 0 {
        Seq::empty()
    } else {
        key_layer_blocks(key, layer, (blocks - 1) as nat, anchors) + anchors.map_values(
            |m: usize| (key, layer as usize, (blocks - 1) as usize, m),
        )
    }
}

/// The layer variables of `key` in layers `1..=layers`.
pub open spec fn key_layers(key: KeyId, layers: nat, blocks: nat, anchors: Seq<usize>) -> Seq<
    (KeyId, usize, usize, usize),
>
    decreases layers,
{
    if layers == 0 {
        Seq::empty()
    } else {
        key_layers(key, (layers - 1) as nat, blocks, anchors) + key_layer_blocks(
            key,
            layers,
            blocks,
            anchors,
        )
    }
}

/// The layer variables of the keys `keys` in turn.
pub open spec fn keys_layers(keys: Seq<KeyId>, layers: nat, blocks: nat, anchors: Seq<usize>) -> Seq<
    (KeyId, usize, usize, usize),
>
    decreases keys.len(),
{
    if keys.len() == 0 {
        Seq::empty()
    } else {
        keys_layers(keys.drop_last(), layers, blocks, anchors) + key_layers(
            keys.last(),
            layers,
            blocks,
            anchors,
        )
    }
}

/// Whether the variables `v` are the names `names` numbered from `first`
/// on.
pub open spec fn numbered<K>(v: Seq<(K, usize)>, names: Seq<K>, first: int) -> bool {
    &&& v.len() == names.len()
    &&& forall|p: int| 0 <= p < v.len() ==> (#[trigger] v[p]).0 == names[p] && v[p].1 == first + p
}

/// The decision variables of the layers, each with its number.
#[derive(Debug, Clone)]
pub struct LayerVariables {
    /// (layer, anchor): the modifier of the layer stands at the anchor.
    pub q_vars: Vec<((usize, usize), usize)>,
    /// (key, layer, block, anchor): the key is in the layer at the block,
    /// its modifier at the anchor.
    pub z_vars: Vec<((KeyId, usize, usize, usize), usize)>,
    /// (modifier key, block): the modifier key stands at the block.
    pub modifier_placement_vars: Vec<((KeyId, usize), usize)>,
}

/// Appends the variable `name` numbered `*next` and counts it.
fn add_var<K>(v: &mut Vec<(K, usize)>, next: &mut usize, name: K)
    requires
        *old(next) < usize::MAX,
    ensures
        final(v)@ == old(v)@.push((name, *old(next))),
        *final(next) == *old(next) + 1,
{
    v.push((name, *next));
    *next = *next + 1;
}

/// Creates the layer variables, numbered from `*vars` on: the modifier
/// placements (each modifier key at each block), the layer modifiers (each
/// layer at each anchor), and the layer keys (each key in each layer at
/// each block with each anchor). `*vars` ends as the next free number.
pub fn create_layer_variables(
    vars: &mut usize,
    layer_candidate_keys: &Vec<KeyId>,
    num_blocks: usize,
    layer_cfg: &LayerConfig,
    modifier_keys: &Vec<KeyId>,
) -> (r: LayerVariables)
    requires
        *old(vars) + key_slot_vars(modifier_keys@, num_blocks as nat).len() + layer_anchor_pairs(
            layer_cfg.max_layers as nat,
            layer_cfg.modifier_anchors@,
        ).len() + keys_layers(
            layer_candidate_keys@,
            layer_cfg.max_layers as nat,
            num_blocks as nat,
            layer_cfg.modifier_anchors@,
        ).len() < usize::MAX,
    ensures
        ({
            let m = key_slot_vars(modifier_keys@, num_blocks as nat);
            let q = layer_anchor_pairs(layer_cfg.max_layers as nat, layer_cfg.modifier_anchors@);
            let z = keys_layers(
                layer_candidate_keys@,
                layer_cfg.max_layers as nat,
                num_blocks as nat,
                layer_cfg.modifier_anchors@,
            );
            &&& numbered(r.modifier_placement_vars@, m, *old(vars) as int)
            &&& numbered(r.q_vars@, q, *old(vars) + m.len())
            &&& numbered(r.z_vars@, z, *old(vars) + m.len() + q.len())
            &&& *final(vars) == *old(vars) + m.len() + q.len() + z.len()
        }),
{
    let ghost base = *vars;
    let ghost anchors = layer_cfg.modifier_anchors@;
    let ghost ms = key_slot_vars(modifier_keys@, num_blocks as nat);
    let ghost qs = layer_anchor_pairs(layer_cfg.max_layers as nat, anchors);
    let ghost zs = keys_layers(layer_candidate_keys@, layer_cfg.max_layers as nat, num_blocks as nat, anchors);
    let mut mv: Vec<((KeyId, usize), usize)> = Vec::new();
    let mut a: usize = 0;
    while a < modifier_keys.len()
        invariant
            a <= modifier_keys@.len(),
            base + ms.len() + qs.len() + zs.len() < usize::MAX,
            ms == key_slot_vars(modifier_keys@, num_blocks as nat),
            numbered(mv@, key_slot_vars(modifier_keys@.take(a as int), num_blocks as nat), base as int),
            *vars == base + mv@.len(),
            mv@.len() <= ms.len(),
        decreases modifier_keys@.len() - a,
    {
        let key = modifier_keys[a];
        let ghost before = mv@;
        let ghost done = key_slot_vars(modifier_keys@.take(a as int), num_blocks as nat);
        proof {
            let t = modifier_keys@.take(a + 1);
            assert(t.drop_last() =~= modifier_keys@.take(a as int));
            assert(t.last() == key);
            lemma_key_slot_vars_prefix(modifier_keys@, a + 1, num_blocks as nat);
        }
        let mut u: usize = 0;
        while u < num_blocks
            invariant
                u <= num_blocks,
                base + ms.len() + qs.len() + zs.len() < usize::MAX,
                done.len() + num_blocks <= ms.len(),
                numbered(mv@, done + Seq::new(u as nat, |b: int| (key, b as usize)), base as int),
                *vars == base + mv@.len(),
            decreases num_blocks - u,
        {
            add_var(&mut mv, vars, (key, u));
            u = u + 1;
            proof {
                assert(done + Seq::new(u as nat, |b: int| (key, b as usize)) =~= (done + Seq::new(
                    (u - 1) as nat,
                    |b: int| (key, b as usize),
                )).push((key, (u - 1) as usize)));
            }
        }
        a = a + 1;
    }
    assert(modifier_keys@.take(a as int) =~= modifier_keys@);
    let ghost after_m = *vars;
    let mut q: Vec<((usize, usize), usize)> = Vec::new();
    let mut l: usize = 0;
    while l < layer_cfg.max_layers
        invariant
            l <= layer_cfg.max_layers,
            anchors == layer_cfg.modifier_anchors@,
            after_m == base + ms.len(),
            base + ms.len() + qs.len() + zs.len() < usize::MAX,
            qs == layer_anchor_pairs(layer_cfg.max_layers as nat, anchors),
            numbered(q@, layer_anchor_pairs(l as nat, anchors), after_m as int),
            *vars == after_m + q@.len(),
            q@.len() <= qs.len(),
        decreases layer_cfg.max_layers - l,
    {
        let layer = l + 1;
        let ghost done = layer_anchor_pairs(l as nat, anchors);
        proof {
            lemma_layer_anchor_pairs_prefix(layer as nat, layer_cfg.max_layers as nat, anchors);
            assert(layer_anchor_pairs(layer as nat, anchors) == done + anchors.map_values(
                |m: usize| (layer, m),
            ));
        }
        let mut j: usize = 0;
        while j < layer_cfg.modifier_anchors.len()
            invariant
                j <= anchors.len(),
                anchors == layer_cfg.modifier_anchors@,
                after_m == base + ms.len(),
                base + ms.len() + qs.len() + zs.len() < usize::MAX,
                done.len() + anchors.len() <= qs.len(),
                numbered(q@, done + anchors.take(j as int).map_values(|m: usize| (layer, m)), after_m as int),
                *vars == after_m + q@.len(),
            decreases anchors.len() - j,
        {
            let m = layer_cfg.modifier_anchors[j];
            assert(q@.len() == done.len() + j);
            add_var(&mut q, vars, (layer, m));
            j = j + 1;
            proof {
                assert(done + anchors.take(j as int).map_values(|m: usize| (layer, m)) =~= (done
                    + anchors.take(j - 1).map_values(|m: usize| (layer, m))).push((layer, m)));
            }
        }
        proof {
            assert(anchors.take(j as int) =~= anchors);
        }
        l = l + 1;
    }
    let ghost after_q = *vars;
    let mut z: Vec<((KeyId, usize, usize, usize), usize)> = Vec::new();
    let mut c: usize = 0;
    while c < layer_candidate_keys.len()
        invariant
            c <= layer_candidate_keys@.len(),
            anchors == layer_cfg.modifier_anchors@,
            after_q == base + ms.len() + qs.len(),
            base + ms.len() + qs.len() + zs.len() < usize::MAX,
            zs == keys_layers(layer_candidate_keys@, layer_cfg.max_layers as nat, num_blocks as nat, anchors),
            numbered(
                z@,
                keys_layers(layer_candidate_keys@.take(c as int), layer_cfg.max_layers as nat, num_blocks as nat, anchors),
                after_q as int,
            ),
            *vars == after_q + z@.len(),
            z@.len() <= zs.len(),
        decreases layer_candidate_keys@.len() - c,
    {
        let key = layer_candidate_keys[c];
        let ghost done_keys = keys_layers(
            layer_candidate_keys@.take(c as int),
            layer_cfg.max_layers as nat,
            num_blocks as nat,
            anchors,
        );
        proof {
            let t = layer_candidate_keys@.take(c + 1);
            assert(t.drop_last() =~= layer_candidate_keys@.take(c as int));
            assert(t.last() == key);
            lemma_keys_layers_prefix(layer_candidate_keys@, c + 1, layer_cfg.max_layers as nat, num_blocks as nat, anchors);
        }
        let mut l: usize = 0;
        while l < layer_cfg.max_layers
            invariant
                l <= layer_cfg.max_layers,
                anchors == layer_cfg.modifier_anchors@,
                base + ms.len() + qs.len() + zs.len() < usize::MAX,
                after_q == base + ms.len() + qs.len(),
                done_keys.len() + key_layers(key, layer_cfg.max_layers as nat, num_blocks as nat, anchors).len() <= zs.len(),
                numbered(z@, done_keys + key_layers(key, l as nat, num_blocks as nat, anchors), after_q as int),
                *vars == after_q + z@.len(),
            decreases layer_cfg.max_layers - l,
        {
            let layer = l + 1;
            let ghost done_layers = done_keys + key_layers(key, l as nat, num_blocks as nat, anchors);
            proof {
                lemma_key_layers_prefix(key, layer as nat, layer_cfg.max_layers as nat, num_blocks as nat, anchors);
            }
            let mut u: usize = 0;
            while u < num_blocks
                invariant
                    u <= num_blocks,
                    anchors == layer_cfg.modifier_anchors@,
                    base + ms.len() + qs.len() + zs.len() < usize::MAX,
                    after_q == base + ms.len() + qs.len(),
                    done_layers.len() + key_layer_blocks(key, layer as nat, num_blocks as nat, anchors).len() <= zs.len(),
                    numbered(z@, done_layers + key_layer_blocks(key, layer as nat, u as nat, anchors), after_q as int),
                    *vars == after_q + z@.len(),
                decreases num_blocks - u,
            {
                let ghost done_blocks = done_layers + key_layer_blocks(key, layer as nat, u as nat, anchors);
                proof {
                    lemma_key_layer_blocks_prefix(key, layer as nat, (u + 1) as nat, num_blocks as nat, anchors);
                }
                let mut j: usize = 0;
                while j < layer_cfg.modifier_anchors.len()
                    invariant
                        j <= anchors.len(),
                        anchors == layer_cfg.modifier_anchors@,
                        base + ms.len() + qs.len() + zs.len() < usize::MAX,
                        after_q == base + ms.len() + qs.len(),
                        done_blocks.len() + anchors.len() <= zs.len(),
                        numbered(
                            z@,
                            done_blocks + anchors.take(j as int).map_values(|m: usize| (key, layer, u, m)),
                            after_q as int,
                        ),
                        *vars == after_q + z@.len(),
                    decreases anchors.len() - j,
                {
                    let m = layer_cfg.modifier_anchors[j];
                    add_var(&mut z, vars, (key, layer, u, m));
                    j = j + 1;
                    proof {
                        assert(done_blocks + anchors.take(j as int).map_values(|m: usize| (key, layer, u, m))
                            =~= (done_blocks + anchors.take(j - 1).map_values(|m: usize| (key, layer, u, m))).push(
                            (key, layer, u, m),
                        ));
                    }
                }
                proof {
                    assert(anchors.take(j as int) =~= anchors);
                    assert(key_layer_blocks(key, layer as nat, (u + 1) as nat, anchors) =~= key_layer_blocks(
                        key,
                        layer as nat,
                        u as nat,
                        anchors,
                    ) + anchors.map_values(|m: usize| (key, layer, u, m)));
                    assert(done_layers + key_layer_blocks(key, layer as nat, (u + 1) as nat, anchors) =~= done_blocks
                        + anchors.map_values(|m: usize| (key, layer, u, m)));
                }
                u = u + 1;
            }
            proof {
                assert(done_keys + key_layers(key, layer as nat, num_blocks as nat, anchors) =~= done_layers
                    + key_layer_blocks(key, layer as nat, num_blocks as nat, anchors));
            }
            l = l + 1;
        }
        proof {
            assert(done_keys + key_layers(key, layer_cfg.max_layers as nat, num_blocks as nat, anchors) =~= keys_layers(
                layer_candidate_keys@.take(c + 1),
                layer_cfg.max_layers as nat,
                num_blocks as nat,
                anchors,
            ));
        }
        c = c + 1;
    }
    assert(layer_candidate_keys@.take(c as int) =~= layer_candidate_keys@);
    LayerVariables { q_vars: q, z_vars: z, modifier_placement_vars: mv }
}

proof fn lemma_key_slot_vars_prefix(keys: Seq<KeyId>, n: int, m: nat)
    requires
        0 <= n <= keys.len(),
    ensures
        key_slot_vars(keys.take(n), m).len() <= key_slot_vars(keys, m).len(),
        key_slot_vars(keys.take(n), m).len() == n * m,
    decreases keys.len() - n,
{
    if n < keys.len() {
        lemma_key_slot_vars_prefix(keys, n + 1, m);
        assert(keys.take(n + 1).drop_last() =~= keys.take(n));
        assert((n + 1) * m == n * m + m) by (nonlinear_arith);
    } else {
        assert(keys.take(n) =~= keys);
        lemma_key_slot_vars_len(keys, m);
    }
}

proof fn lemma_key_slot_vars_len(keys: Seq<KeyId>, m: nat)
    ensures
        key_slot_vars(keys, m).len() == keys.len() * m,
    decreases keys.len(),
{
    if keys.len() > 0 {
        lemma_key_slot_vars_len(keys.drop_last(), m);
        assert(keys.len() * m == (keys.len() - 1) * m + m) by (nonlinear_arith);
    }
}

proof fn lemma_layer_anchor_pairs_prefix(l: nat, n: nat, anchors: Seq<usize>)
    requires
        l <= n,
    ensures
        layer_anchor_pairs(l, anchors).len() <= layer_anchor_pairs(n, anchors).len(),
    decreases n - l,
{
    if l < n {
        lemma_layer_anchor_pairs_prefix(l, (n - 1) as nat, anchors);
    }
}

proof fn lemma_key_layer_blocks_prefix(key: KeyId, layer: nat, u: nat, n: nat, anchors: Seq<usize>)
    requires
        u <= n,
    ensures
        key_layer_blocks(key, layer, u, anchors).len() <= key_layer_blocks(key, layer, n, anchors).len(),
    decreases n - u,
{
    if u < n {
        lemma_key_layer_blocks_prefix(key, layer, u, (n - 1) as nat, anchors);
    }
}

proof fn lemma_key_layers_prefix(key: KeyId, l: nat, n: nat, blocks: nat, anchors: Seq<usize>)
    requires
        l <= n,
    ensures
        key_layers(key, l, blocks, anchors).len() <= key_layers(key, n, blocks, anchors).len(),
    decreases n - l,
{
    if l < n {
        lemma_key_layers_prefix(key, l, (n - 1) as nat, blocks, anchors);
    }
}

proof fn lemma_keys_layers_prefix(keys: Seq<KeyId>, n: int, layers: nat, blocks: nat, anchors: Seq<usize>)
    requires
        0 <= n <= keys.len(),
    ensures
        keys_layers(keys.take(n), layers, blocks, anchors).len() <= keys_layers(keys, layers, blocks, anchors).len(),
    decreases keys.len() - n,
{
    if n < keys.len() {
        lemma_keys_layers_prefix(keys, n + 1, layers, blocks, anchors);
        assert(keys.take(n + 1).drop_last() =~= keys.take(n));
    } else {
        assert(keys.take(n) =~= keys);
    }
}

} // verus!
