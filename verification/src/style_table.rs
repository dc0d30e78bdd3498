//! The style dictionary: every distinct style gets a dense 16-bit id, and
//! cells carry the id instead of the style.

use std::collections::HashMap;
use vstd::prelude::*;
use crate::protocol::color::Value;
use crate::protocol::{Color, Style};

verus! {

/// How many styles a table can hold: one for every 16-bit id.
pub const MAX_STYLES: usize = 65536;

/// The first position of `style` in `styles`, if it occurs there.
pub open spec fn first_index_of(styles: Seq<Style>, style: Style) -> Option<int> {
    if exists|i: int| 0 <= i < styles.len() && styles[i] == style {
        Some(choose|i: int| 0 <= i < styles.len() && styles[i] == style
            && forall|j: int| 0 <= j < i ==> styles[j] != style)
    } else {
        None
    }
}

/// No style occurs twice.
pub open spec fn distinct(styles: Seq<Style>) -> bool {
    forall|i: int, j: int| 0 <= i < j < styles.len() ==> styles[i] != styles[j]
}

/// A table as it should be: the default style at id 0, no style twice, and no
/// more styles than ids.
pub open spec fn table_ok(styles: Seq<Style>) -> bool {
    &&& 1 <= styles.len() <= MAX_STYLES
    &&& styles[0] == Style::spec_default()
    &&& distinct(styles)
}

const HASH_SEED: u64 = 0xcbf2_9ce4_8422_2325;

const HASH_PRIME: u64 = 0x0000_0100_0000_01b3;

/// One step of the hash: `x` is folded into what was hashed so far.
spec fn spec_mix(h: u64, x: u64) -> u64 {
    (h ^ x).wrapping_mul(HASH_PRIME)
}

spec fn spec_flag(set: bool, bit: u64) -> u64 {
    if set {
        bit
    } else {
        0
    }
}

/// A number for a colour that may be absent.
spec fn spec_color_code(color: Option<Color>) -> u64 {
    match color {
        None => 0,
        Some(c) => match c.value {
            None => 1,
            Some(Value::DefaultColor(_)) => 2,
            Some(Value::Ansi256(n)) => spec_mix(3, n as u64),
            Some(Value::Rgb(rgb)) => spec_mix(spec_mix(spec_mix(4, rgb.r as u64), rgb.g as u64), rgb.b as u64),
        },
    }
}

/// The attributes of a style as one number, a bit for each.
spec fn spec_flags(style: Style) -> u64 {
    (spec_flag(style.bold, 1) + spec_flag(style.dim, 2) + spec_flag(style.italic, 4) + spec_flag(
        style.reverse,
        8,
    ) + spec_flag(style.hidden, 16) + spec_flag(style.strike, 32) + spec_flag(style.blink_slow, 64)
        + spec_flag(style.blink_fast, 128)) as u64
}

/// The number under which the table files a style. Equal styles have equal
/// numbers; different styles may share one.
spec fn spec_style_hash(style: Style) -> u64 {
    let h0 = spec_mix(HASH_SEED, spec_color_code(style.fg));
    let h1 = spec_mix(h0, spec_color_code(style.bg));
    let h2 = spec_mix(h1, spec_color_code(style.underline_color));
    let h3 = spec_mix(h2, spec_flags(style));
    spec_mix(h3, style.underline as u32 as u64)
}

fn mix(h: u64, x: u64) -> (r: u64)
    ensures
        r == spec_mix(h, x),
{
    (h ^ x).wrapping_mul(HASH_PRIME)
}

fn flag(set: bool, bit: u64) -> (r: u64)
    ensures
        r == spec_flag(set, bit),
{
    if set {
        bit
    } else {
        0
    }
}

fn color_code(color: &Option<Color>) -> (r: u64)
    ensures
        r == spec_color_code(*color),
{
    match color {
        None => 0,
        Some(c) => match c.value {
            None => 1,
            Some(Value::DefaultColor(_)) => 2,
            Some(Value::Ansi256(n)) => mix(3, n as u64),
            Some(Value::Rgb(rgb)) => mix(mix(mix(4, rgb.r as u64), rgb.g as u64), rgb.b as u64),
        },
    }
}

/// The number under which the table files `style`.
fn style_hash(style: &Style) -> (h: u64)
    ensures
        h == spec_style_hash(*style),
{
    let flags: u64 = flag(style.bold, 1) + flag(style.dim, 2) + flag(style.italic, 4) + flag(style.reverse, 8)
        + flag(style.hidden, 16) + flag(style.strike, 32) + flag(style.blink_slow, 64) + flag(
        style.blink_fast,
        128,
    );
    let h0 = mix(HASH_SEED, color_code(&style.fg));
    let h1 = mix(h0, color_code(&style.bg));
    let h2 = mix(h1, color_code(&style.underline_color));
    let h3 = mix(h2, flags);
    mix(h3, style.underline as u32 as u64)
}

/// The index lists `id` under `h`.
spec fn listed(index: Map<u64, Vec<u16>>, h: u64, id: int) -> bool {
    index.contains_key(h) && exists|k: int| 0 <= k < index[h]@.len() && #[trigger] index[h]@[k] == id
}

/// The style at position `i` is listed under its own number.
spec fn filed(styles: Seq<Style>, index: Map<u64, Vec<u16>>, i: int) -> bool {
    listed(index, spec_style_hash(styles[i]), i)
}

/// The index is complete: it lists every style of the table under the
/// style's number. (It may list more; a lookup tests what it finds.)
spec fn index_complete(styles: Seq<Style>, index: Map<u64, Vec<u16>>) -> bool {
    forall|i: int| 0 <= i < styles.len() ==> #[trigger] filed(styles, index, i)
}

/// The styles in id order, and an index from a style's number to the ids of
/// the styles that have that number.
pub struct StyleTable {
    styles: Vec<Style>,
    index: HashMap<u64, Vec<u16>>,
}

impl View for StyleTable {
    type V = Seq<Style>;

    /// The styles in id order: the style with id `i` stands at position `i`.
    closed spec fn view(&self) -> Seq<Style> {
        self.styles@
    }
}

impl StyleTable {
    #[verifier::type_invariant]
    spec fn inv(&self) -> bool {
        table_ok(self.styles@) && index_complete(self.styles@, self.index@)
    }

    /// What holds of every table: the default style stands at id 0, no
    /// style stands twice, and there are no more styles than ids.
    pub open spec fn wf(&self) -> bool {
        table_ok(self@)
    }

    /// What `get_or_insert` leaves in the table and returns.
    pub open spec fn spec_get_or_insert(before: Seq<Style>, style: Style) -> (Seq<Style>, u16) {
        if before.contains(style) {
            (before, first_index_of(before, style).unwrap() as u16)
        } else if before.len() < MAX_STYLES {
            (before.push(style), before.len() as u16)
        } else {
            (before, 0u16)
        }
    }

    pub fn new() -> (t: StyleTable)
        ensures
            t@ == seq![Style::spec_default()],
            t.wf(),
    {
        let first = Style::default();
        let mut styles: Vec<Style> = Vec::new();
        styles.push(first);
        let mut bucket: Vec<u16> = Vec::new();
        bucket.push(0);
        let mut index: HashMap<u64, Vec<u16>> = HashMap::new();
        let h = style_hash(&first);
        index.insert(h, bucket);
        proof {
            assert(index@.contains_key(h));
            assert(index@[h]@[0] == 0);
            assert(listed(index@, h, 0));
            assert(filed(styles@, index@, 0));
        }
        StyleTable { styles, index }
    }

    /// The id under which the table holds `style`, if it holds it: the
    /// ids listed under the style's number are tried in turn.
    fn find(&self, style: &Style, h: u64) -> (r: Option<u16>)
        requires
            h == spec_style_hash(*style),
        ensures
            r matches Some(id) ==> id < self.styles@.len() && self.styles@[id as int] == *style,
            r.is_none() ==> !self.styles@.contains(*style),
    {
        proof {
            use_type_invariant(self);
        }
        let n = self.styles.len();
        match self.index.get(&h) {
            Some(bucket) => {
                let mut k: usize = 0;
                while k < bucket.len()
                    invariant
                        k <= bucket@.len(),
                        n == self.styles@.len(),
                        forall|j: int|
                            0 <= j < k ==> !((#[trigger] bucket@[j]) < n && self.styles@[bucket@[j] as int] == *style),
                    decreases bucket@.len() - k,
                {
                    let candidate = bucket[k];
                    if (candidate as usize) < n && self.styles[candidate as usize] == *style {
                        return Some(candidate);
                    }
                    k += 1;
                }
                proof {
                    assert forall|i: int| 0 <= i < self.styles@.len() implies self.styles@[i] != *style by {
                        if self.styles@[i] == *style {
                            assert(filed(self.styles@, self.index@, i));
                            let j = choose|j: int| 0 <= j < bucket@.len() && #[trigger] bucket@[j] == i;
                            assert(bucket@[j] < n);
                        }
                    }
                }
                None
            },
            None => {
                proof {
                    assert forall|i: int| 0 <= i < self.styles@.len() implies self.styles@[i] != *style by {
                        if self.styles@[i] == *style {
                            assert(filed(self.styles@, self.index@, i));
                        }
                    }
                }
                None
            },
        }
    }

    /// The id of `style`, which is interned first if the table does not hold
    /// it yet. A full table interns nothing more and answers with the default
    /// id 0.
    pub fn get_or_insert(&mut self, style: &Style) -> (id: u16)
        ensures
            old(self).wf(),
            final(self).wf(),
            (final(self)@, id) == Self::spec_get_or_insert(old(self)@, *style),
            final(self)@.len() >= old(self)@.len(),
            forall|i: int| 0 <= i < old(self)@.len() ==> final(self)@[i] == old(self)@[i],
            old(self)@.contains(*style) ==> final(self)@ == old(self)@ && old(self)@[id as int] == *style,
            !old(self)@.contains(*style) && old(self)@.len() < MAX_STYLES ==> final(self)@ == old(self)@.push(
                *style,
            ) && id == old(self)@.len(),
            !old(self)@.contains(*style) && old(self)@.len() >= MAX_STYLES ==> final(self)@ == old(self)@
                && id == 0,
    {
        proof {
            use_type_invariant(&*self);
        }
        let h = style_hash(style);
        let n = self.styles.len();
        match self.find(style, h) {
            Some(id) => {
                proof {
                    lemma_first_index(self.styles@, *style, id as int);
                }
                return id;
            },
            None => {},
        }
        if n < MAX_STYLES {
            let mut taken = StyleTable::new();
            core::mem::swap(self, &mut taken);
            let mut styles = taken.styles;
            let mut index = taken.index;
            let ghost before = styles@;
            let ghost index_before = index@;
            styles.push(*style);
            let mut bucket = match index.remove(&h) {
                Some(bucket) => bucket,
                None => Vec::new(),
            };
            let ghost bucket_before = bucket@;
            bucket.push(n as u16);
            index.insert(h, bucket);
            proof {
                assert(styles@ == before.push(*style));
                assert(distinct(styles@)) by {
                    assert forall|a: int, b: int| 0 <= a < b < styles@.len() implies styles@[a] != styles@[b] by {
                        if b == before.len() {
                            assert(before[a] != *style);
                        } else {
                            assert(before[a] != before[b]);
                        }
                    }
                }
                assert(index@.contains_key(h));
                assert(index@[h]@ == bucket_before.push(n as u16));
                assert forall|i: int| 0 <= i < styles@.len() implies #[trigger] filed(styles@, index@, i) by {
                    let hi = spec_style_hash(styles@[i]);
                    if i < before.len() {
                        assert(filed(before, index_before, i));
                        assert(styles@[i] == before[i]);
                        if hi == h {
                            assert(bucket_before == index_before[h]@);
                            let k = choose|k: int| 0 <= k < bucket_before.len() && #[trigger] index_before[h]@[k] == i;
                            assert(index@[h]@[k] == i);
                        } else {
                            assert(index@[hi] == index_before[hi]);
                            let k = choose|k: int|
                                0 <= k < index_before[hi]@.len() && #[trigger] index_before[hi]@[k] == i;
                            assert(index@[hi]@[k] == i);
                        }
                    } else {
                        assert(index@[h]@[bucket_before.len() as int] == i);
                    }
                    assert(listed(index@, hi, i));
                }
            }
            *self = StyleTable { styles, index };
            n as u16
        } else {
            0
        }
    }

    pub fn get(&self, id: u16) -> (r: Option<&Style>)
        ensures
            self.wf(),
            id < self@.len() ==> r == Some(&self@[id as int]),
            id >= self@.len() ==> r.is_none(),
    {
        proof {
            use_type_invariant(self);
        }
        if (id as usize) < self.styles.len() {
            Some(&self.styles[id as usize])
        } else {
            None
        }
    }

    /// How many styles the table holds; also the id that the next new style
    /// will get.
    pub fn current_count(&self) -> (n: usize)
        ensures
            self.wf(),
            n == self@.len(),
    {
        proof {
            use_type_invariant(self);
        }
        self.styles.len()
    }

    /// The styles with id `baseline` and above, each with its id, in id order.
    pub fn styles_since(&self, baseline: usize) -> (r: Vec<(u16, &Style)>)
        ensures
            self.wf(),
            baseline >= self@.len() ==> r@.len() == 0,
            baseline < self@.len() ==> r@.len() == self@.len() - baseline,
            forall|k: int|
                0 <= k < r@.len() ==> (#[trigger] r@[k]).0 == baseline + k && *r@[k].1 == self@[baseline + k],
    {
        proof {
            use_type_invariant(self);
        }
        let mut out: Vec<(u16, &Style)> = Vec::new();
        let n = self.styles.len();
        let mut i: usize = baseline;
        while i < n
            invariant
                n == self.styles@.len(),
                n <= MAX_STYLES,
                baseline <= i,
                i <= n || out@.len() == 0,
                baseline <= n ==> i <= n,
                i <= n ==> out@.len() == i - baseline,
                forall|k: int|
                    0 <= k < out@.len() ==> (#[trigger] out@[k]).0 == baseline + k && *out@[k].1
                        == self.styles@[baseline + k],
            decreases n - i,
        {
            out.push((i as u16, &self.styles[i]));
            i += 1;
        }
        out
    }

    /// Every style with its id, in id order.
    pub fn all_styles(&self) -> (r: Vec<(u16, &Style)>)
        ensures
            self.wf(),
            r@.len() == self@.len(),
            forall|k: int| 0 <= k < r@.len() ==> (#[trigger] r@[k]).0 == k && *r@[k].1 == self@[k],
    {
        self.styles_since(0)
    }

    /// Forgets every style but the default one.
    pub fn reset(&mut self)
        ensures
            final(self)@ == seq![Style::spec_default()],
            final(self).wf(),
    {
        *self = StyleTable::new();
    }
}

impl Default for StyleTable {
    fn default() -> (t: StyleTable)
        ensures
            t@ == seq![Style::spec_default()],
            t.wf(),
    {
        StyleTable::new()
    }
}

/// The first position at which `style` stands is `i`, if it stands at `i`
/// and nowhere before.
pub proof fn lemma_first_index(styles: Seq<Style>, style: Style, i: int)
    requires
        0 <= i < styles.len(),
        styles[i] == style,
        forall|j: int| 0 <= j < i ==> styles[j] != style,
    ensures
        styles.contains(style),
        first_index_of(styles, style) == Some(i),
{
    let k = first_index_of(styles, style).unwrap();
    assert(0 <= k < styles.len() && styles[k] == style && forall|j: int|
        0 <= j < k ==> styles[j] != style);
    if k < i {
        assert(styles[k] != style);
    } else if i < k {
        assert(styles[i] != style);
    }
}

/// Interning is idempotent: asking twice for the id of one style gives the
/// same id, and the second call leaves the table as the first left it.
pub proof fn lemma_get_or_insert_idempotent(before: Seq<Style>, style: Style)
    requires
        table_ok(before),
    ensures
        ({
            let (after1, id1) = StyleTable::spec_get_or_insert(before, style);
            let (after2, id2) = StyleTable::spec_get_or_insert(after1, style);
            &&& after2 == after1
            &&& table_ok(after1)
            &&& before.contains(style) || before.len() < MAX_STYLES ==> id2 == id1 && after1[id1 as int]
                == style
        }),
{
    let (after1, id1) = StyleTable::spec_get_or_insert(before, style);
    if before.contains(style) {
        let k = first_index_of(before, style).unwrap();
        assert(0 <= k < before.len() && before[k] == style);
    } else if before.len() < MAX_STYLES {
        assert(after1[before.len() as int] == style);
        lemma_first_index(after1, style, before.len() as int);
        assert(distinct(after1)) by {
            assert forall|i: int, j: int| 0 <= i < j < after1.len() implies after1[i] != after1[j] by {
                if j == before.len() {
                    assert(before[i] != style);
                }
            }
        }
    } else {
    }
}

} // verus!
