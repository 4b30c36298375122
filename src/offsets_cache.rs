//! A memo of where each grapheme cluster of a line starts, in bytes, keyed by the
//! line's text.
use vstd::hash_map::StringHashMap;
use vstd::prelude::*;
use vstd::utf8::*;

use crate::text::lemma_encode_utf8_concat;
use crate::text_handling::graphemes_of;

verus! {

/// The texts of a sequence of string slices.
pub open spec fn views(gs: Seq<&str>) -> Seq<Seq<char>> {
    gs.map_values(|g: &str| g@)
}

/// The byte offset at which cluster `k` of `gs` starts, once the clusters are encoded in
/// UTF-8 one after another (for `k == gs.len()`, the length of the whole encoding).
pub open spec fn cluster_offset(gs: Seq<Seq<char>>, k: int) -> int {
    encode_utf8(gs.take(k).flatten()).len() as int
}

/// `v` holds the byte offset of every cluster boundary of `line`: one entry more than
/// the line has clusters, from 0 up to the length of their encoding.
pub open spec fn offsets_of(line: Seq<char>, v: Seq<usize>) -> bool {
    let gs = graphemes_of(line);
    &&& v.len() == gs.len() + 1
    &&& forall|k: int| 0 <= k <= gs.len() ==> #[trigger] v[k] as int == cluster_offset(gs, k)
}

/// Cluster boundaries of lines, computed once per distinct line text and kept for the
/// life of the cache. Lines with the same text share an entry. The cache is an ordinary
/// value that its owner passes by `&mut`, so only one control flow ever updates it.
pub struct OffsetsCache {
    map: StringHashMap<Vec<usize>>,
}

impl View for OffsetsCache {
    type V = Map<Seq<char>, Seq<usize>>;

    closed spec fn view(&self) -> Map<Seq<char>, Seq<usize>> {
        self.map@.map_values(|v: Vec<usize>| v@)
    }
}

impl OffsetsCache {
    /// Every entry holds the offsets of its own key.
    pub open spec fn wf(&self) -> bool {
        forall|line: Seq<char>| #[trigger] self@.contains_key(line) ==> offsets_of(line, self@[line])
    }

    /// An empty cache.
    pub fn new() -> (r: OffsetsCache)
        ensures
            r.wf(),
            r@ == Map::<Seq<char>, Seq<usize>>::empty(),
    {
        let r = OffsetsCache { map: StringHashMap::new() };
        assert(r@ =~= Map::<Seq<char>, Seq<usize>>::empty());
        r
    }

    /// The byte offsets at which clusters `start` and `end` of `line` begin, where
    /// `graphemes` are the line's clusters. The line's offsets are computed and kept if
    /// the cache does not hold them yet; either way the answer is the same.
    pub fn byte_span(&mut self, line: &str, graphemes: &Vec<&str>, start: usize, end: usize) -> (r: (
        usize,
        usize,
    ))
        requires
            old(self).wf(),
            views(graphemes@) == graphemes_of(line@),
            graphemes_of(line@).flatten() == line@,
            start <= end <= graphemes@.len(),
        ensures
            final(self).wf(),
            final(self)@.contains_key(line@),
            final(self)@.dom() == old(self)@.dom().insert(line@),
            forall|k: Seq<char>| #[trigger]
                old(self)@.contains_key(k) ==> final(self)@[k] == old(self)@[k],
            r.0 as int == cluster_offset(graphemes_of(line@), start as int),
            r.1 as int == cluster_offset(graphemes_of(line@), end as int),
    {
        let ghost gs = graphemes_of(line@);
        match self.map.get(line) {
            Some(offsets) => {
                assert(self@.contains_key(line@));
                assert(self@[line@] == offsets@);
                let r = (offsets[start], offsets[end]);
                proof {
                    assert(self@.dom() =~= self@.dom().insert(line@));
                }
                r
            },
            None => {
                let offsets = cluster_offsets(line, graphemes);
                let r = (offsets[start], offsets[end]);
                let ghost before = self@;
                self.map.insert(line.to_owned(), offsets);
                proof {
                    assert(self@ =~= before.insert(line@, offsets@));
                }
                r
            },
        }
    }
}

/// The cache answers the same whatever it held before: any two well-formed caches that
/// hold a line hold the same offsets for it.
pub proof fn lemma_cached_offsets_agree(first: OffsetsCache, second: OffsetsCache, line: Seq<char>)
    requires
        first.wf(),
        second.wf(),
        first@.contains_key(line),
        second@.contains_key(line),
    ensures
        first@[line] == second@[line],
{
    let a = first@[line];
    let b = second@[line];
    assert(offsets_of(line, a));
    assert(offsets_of(line, b));
    assert forall|k: int| 0 <= k < a.len() implies a[k] == b[k] by {
        assert(a[k] as int == cluster_offset(graphemes_of(line), k));
        assert(b[k] as int == cluster_offset(graphemes_of(line), k));
    }
    assert(a =~= b);
}

/// The byte offsets of all cluster boundaries of `line`, from its clusters.
fn cluster_offsets(line: &str, graphemes: &Vec<&str>) -> (r: Vec<usize>)
    requires
        views(graphemes@) == graphemes_of(line@),
        graphemes_of(line@).flatten() == line@,
    ensures
        offsets_of(line@, r@),
{
    let ghost gs = graphemes_of(line@);
    let total = line.as_bytes().len();
    assert(total == encode_utf8(line@).len());
    let mut r: Vec<usize> = Vec::new();
    let mut accum: usize = 0;
    r.push(accum);
    assert(gs.take(0) =~= Seq::<Seq<char>>::empty());
    let mut i: usize = 0;
    while i < graphemes.len()
        invariant
            gs == graphemes_of(line@),
            views(graphemes@) == gs,
            gs.flatten() == line@,
            total == encode_utf8(line@).len(),
            i <= graphemes@.len(),
            r@.len() == i + 1,
            accum as int == cluster_offset(gs, i as int),
            forall|k: int| 0 <= k <= i ==> #[trigger] r@[k] as int == cluster_offset(gs, k),
        decreases graphemes@.len() - i,
    {
        let g = graphemes[i];
        proof {
            assert(g@ == gs[i as int]);
            assert(gs.take(i + 1) =~= gs.take(i as int).push(gs[i as int]));
            gs.take(i as int).lemma_flatten_push(gs[i as int]);
            lemma_encode_utf8_concat(gs.take(i as int).flatten(), gs[i as int]);
            assert(gs =~= gs.take(i + 1) + gs.skip(i + 1));
            vstd::seq_lib::lemma_flatten_concat(gs.take(i + 1), gs.skip(i + 1));
            lemma_encode_utf8_concat(gs.take(i + 1).flatten(), gs.skip(i + 1).flatten());
        }
        accum = accum + g.len();
        r.push(accum);
        i = i + 1;
    }
    r
}

} // verus!
