//! The walk over a region of boxes: the recursive-descent tree builder and
//! the scan that a callback can stop, sharing one algorithm.
use crate::boxes::{decode_payload, payload_outcome, BoxData, Mp4Box, Mp4BoxTree, PhtmBox};
use crate::registry::BoxType;
use crate::wire::{be_at, fits, Error, Reason};
use crate::header::{lemma_large_size_too_small, parse_header, spec_header, spec_parse_header, BoxHeader, HEADER_SIZE};
use crate::Scanning;
use vstd::prelude::*;

verus! {

/// Where a decoded box stands: its header, where its payload's data starts,
/// the effective size its payload reports (its nested boxes start that many
/// bytes into the box), and the layout of the boxes nested in it.
pub struct Shape {
    pub header: BoxHeader,
    pub data_pos: int,
    pub eff: int,
    pub children: Seq<Shape>,
}

/// A box handed to the scan callback: its header and where its data starts.
pub type Visit = (BoxHeader, int);

/// What walking a region gives: the layout of its decoded boxes or an error,
/// the boxes visited in order, and whether a `Stop` ended the walk.
pub struct Walk {
    pub res: Result<Seq<Shape>, Error>,
    pub visits: Seq<Visit>,
    pub stopped: bool,
}

pub open spec fn done() -> Walk {
    Walk { res: Ok(seq![]), visits: seq![], stopped: false }
}

pub open spec fn failed(e: Error, visits: Seq<Visit>) -> Walk {
    Walk { res: Err(e), visits, stopped: false }
}

/// `w` preceded by the boxes `ss`, visited as `vs`.
pub open spec fn prepend(ss: Seq<Shape>, vs: Seq<Visit>, w: Walk) -> Walk {
    Walk {
        res: match w.res {
            Ok(x) => Ok(ss + x),
            Err(e) => Err(e),
        },
        visits: vs + w.visits,
        stopped: w.stopped,
    }
}

/// Whether a stop at visit `s` (none if `None`) comes at or after visit `n`.
pub open spec fn beyond(s: Option<nat>, n: nat) -> bool {
    match s {
        None => true,
        Some(j) => j >= n,
    }
}

/// The walk over the region `[pos, end)` of `b`, where `k` boxes were
/// visited before and the visit numbered `stop`, if any, answers `Stop`.
///
/// At each position a header is read. A box larger than what remains of the
/// region is an error; a declared size of zero ends the region. A box of a
/// kind that traversal skips is passed over whole. A known box is decoded
/// and visited; unless it stops the walk, the bytes between its effective
/// size and its declared size are, when more than a header's worth, a region
/// of children, and otherwise padding. The walk goes on after the box's
/// declared size.
#[verifier::opaque]
pub open spec fn walk(b: Seq<u8>, pos: int, end: int, stop: Option<nat>, k: nat) -> Walk
    decreases end - pos,
{
    if pos >= end {
        done()
    } else {
        match spec_parse_header(b, pos) {
            Err(e) => failed(e, seq![]),
            Ok((h, hl)) => {
                if h.size > end - pos {
                    failed(Error::InvalidData(Reason::BoxLargerThanRegion), seq![])
                } else if h.size == 0 {
                    done()
                } else {
                    match payload_outcome(b, pos + hl, h) {
                        None => walk(b, pos + h.size, end, stop, k),
                        Some(Err(e)) => failed(e, seq![]),
                        Some(Ok(eff)) => {
                            let v = seq![(h, pos + hl)];
                            if stop == Some(k) {
                                Walk { res: Ok(seq![]), visits: v, stopped: true }
                            } else if eff > h.size {
                                failed(Error::InvalidData(Reason::PayloadLargerThanBox), v)
                            } else {
                                let inner = if eff > 0 && h.size - eff > 8 {
                                    walk(b, pos + eff, pos + h.size, stop, k + 1)
                                } else {
                                    done()
                                };
                                match inner.res {
                                    Err(e) => failed(e, v + inner.visits),
                                    Ok(children) => {
                                        if inner.stopped {
                                            Walk { res: Ok(seq![]), visits: v + inner.visits, stopped: true }
                                        } else {
                                            prepend(
                                                seq![Shape { header: h, data_pos: pos + hl, eff: eff as int, children }],
                                                v + inner.visits,
                                                walk(b, pos + h.size, end, stop, k + 1 + inner.visits.len()),
                                            )
                                        }
                                    },
                                }
                            }
                        },
                    }
                }
            },
        }
    }
}

/// The walk of the children region of a known box whose header is `h` and
/// whose payload has effective size `eff`.
pub open spec fn inner_walk(b: Seq<u8>, pos: int, h: BoxHeader, eff: int, stop: Option<nat>, k: nat) -> Walk {
    if eff > 0 && h.size - eff > 8 {
        walk(b, pos + eff, pos + h.size, stop, k)
    } else {
        done()
    }
}

/// One step of the walk, at a position where a box starts.
pub proof fn lemma_walk_step(b: Seq<u8>, pos: int, end: int, s: Option<nat>, k: nat)
    requires
        pos < end,
    ensures
        walk(b, pos, end, s, k) == match spec_parse_header(b, pos) {
            Err(e) => failed(e, seq![]),
            Ok((h, hl)) => {
                if h.size > end - pos {
                    failed(Error::InvalidData(Reason::BoxLargerThanRegion), seq![])
                } else if h.size == 0 {
                    done()
                } else {
                    match payload_outcome(b, pos + hl, h) {
                        None => walk(b, pos + h.size, end, s, k),
                        Some(Err(e)) => failed(e, seq![]),
                        Some(Ok(eff)) => {
                            let v = seq![(h, pos + hl)];
                            if s == Some(k) {
                                Walk { res: Ok(seq![]), visits: v, stopped: true }
                            } else if eff > h.size {
                                failed(Error::InvalidData(Reason::PayloadLargerThanBox), v)
                            } else {
                                let inner = inner_walk(b, pos, h, eff as int, s, k + 1);
                                match inner.res {
                                    Err(e) => failed(e, v + inner.visits),
                                    Ok(children) => {
                                        if inner.stopped {
                                            Walk { res: Ok(seq![]), visits: v + inner.visits, stopped: true }
                                        } else {
                                            prepend(
                                                seq![Shape { header: h, data_pos: pos + hl, eff: eff as int, children }],
                                                v + inner.visits,
                                                walk(b, pos + h.size, end, s, k + 1 + inner.visits.len()),
                                            )
                                        }
                                    },
                                }
                            }
                        },
                    }
                }
            },
        },
{
    reveal(walk);
}

/// A walk over an empty region.
pub proof fn lemma_walk_empty(b: Seq<u8>, pos: int, end: int, s: Option<nat>, k: nat)
    requires
        pos >= end,
    ensures
        walk(b, pos, end, s, k) == done(),
{
    reveal(walk);
}

/// Boxes put in front of boxes put in front of a walk.
pub proof fn lemma_prepend_prepend(ss1: Seq<Shape>, vs1: Seq<Visit>, ss2: Seq<Shape>, vs2: Seq<Visit>, w: Walk)
    ensures
        prepend(ss1, vs1, prepend(ss2, vs2, w)) == prepend(ss1 + ss2, vs1 + vs2, w),
{
    assert(vs1 + (vs2 + w.visits) =~= vs1 + vs2 + w.visits);
    match w.res {
        Ok(x) => {
            assert(ss1 + (ss2 + x) =~= ss1 + ss2 + x);
        },
        Err(e) => {},
    }
}

/// A known box that does not stop the walk and whose children decode.
pub proof fn lemma_walk_known(
    b: Seq<u8>,
    pos: int,
    end: int,
    s: Option<nat>,
    k: nat,
    h: BoxHeader,
    hl: int,
    eff: int,
)
    requires
        pos < end,
        spec_parse_header(b, pos) == Ok::<(BoxHeader, int), Error>((h, hl)),
        0 < h.size <= end - pos,
        payload_outcome(b, pos + hl, h) == Some(Ok::<nat, Error>(eff as nat)),
        0 < eff <= h.size,
        inner_walk(b, pos, h, eff, None, k + 1).res is Ok,
        beyond(s, k + 1 + inner_walk(b, pos, h, eff, None, k + 1).visits.len()),
    ensures
        ({
            let inner = inner_walk(b, pos, h, eff, None, k + 1);
            walk(b, pos, end, s, k) == prepend(
                seq![Shape { header: h, data_pos: pos + hl, eff, children: inner.res->Ok_0 }],
                seq![(h, pos + hl)] + inner.visits,
                walk(b, pos + h.size, end, s, k + 1 + inner.visits.len()),
            )
        }),
{
    lemma_walk_step(b, pos, end, s, k);
    if h.size - eff > 8 {
        lemma_walk_unreached(b, pos + eff, pos + h.size, s, k + 1);
        lemma_walk_unstopped(b, pos + eff, pos + h.size, k + 1);
    }
}

/// The forest that decoding the first `size` bytes of `b` gives, or the error.
pub open spec fn spec_forest(b: Seq<u8>, size: int) -> Result<Seq<Shape>, Error> {
    walk(b, 0, size, None, 0).res
}

/// Whether tree `t` is the decoding of the box laid out as `s`.
pub open spec fn tree_matches(b: Seq<u8>, t: Mp4BoxTree, s: Shape) -> bool
    decreases s,
{
    &&& t.node.header == s.header
    &&& t.node.data.decodes(b, s.data_pos, s.header)
    &&& t.node.data.spec_effective_size() == s.eff
    &&& 0 < s.eff <= s.header.size
    &&& t.children@.len() == s.children.len()
    &&& forall|i: int|
        0 <= i < s.children.len() ==> tree_matches(b, #[trigger] t.children@[i], s.children[i])
}

/// Whether the trees `ts` are the decoding of the boxes laid out as `ss`.
pub open spec fn forest_matches(b: Seq<u8>, ts: Seq<Mp4BoxTree>, ss: Seq<Shape>) -> bool {
    &&& ts.len() == ss.len()
    &&& forall|i: int| 0 <= i < ss.len() ==> tree_matches(b, #[trigger] ts[i], ss[i])
}

/// Whether the callback `f` may answer `a` for the payload of the visited box `v`.
pub open spec fn answered<F: FnMut(&BoxData) -> Scanning>(b: Seq<u8>, f: F, v: Visit, a: Scanning) -> bool {
    exists|d: BoxData| d.decodes(b, v.1, v.0) && call_ensures(f, (&d,), a)
}

proof fn lemma_answered<F: FnMut(&BoxData) -> Scanning>(b: Seq<u8>, f: F, v: Visit, a: Scanning, d: BoxData)
    requires
        d.decodes(b, v.1, v.0),
        call_ensures(f, (&d,), a),
    ensures
        answered(b, f, v, a),
{
}

/// The answer that visit `i` gets when visit `stop` is the one that stops.
pub open spec fn answer_at(stop: Option<nat>, i: int) -> Scanning {
    if stop == Some(i as nat) {
        Scanning::Stop
    } else {
        Scanning::Continue
    }
}

/// Whether the callback may have given every answer of `visits`, numbered from `k`.
pub open spec fn all_answered<F: FnMut(&BoxData) -> Scanning>(
    b: Seq<u8>,
    f: F,
    visits: Seq<Visit>,
    stop: Option<nat>,
    k: nat,
) -> bool {
    forall|i: int| 0 <= i < visits.len() ==> answered(b, f, #[trigger] visits[i], answer_at(stop, k + i))
}

/// A stop that the walk never reaches changes nothing.
pub proof fn lemma_walk_unreached(b: Seq<u8>, pos: int, end: int, s: Option<nat>, k: nat)
    requires
        beyond(s, k + walk(b, pos, end, None, k).visits.len()),
    ensures
        walk(b, pos, end, s, k) == walk(b, pos, end, None, k),
    decreases end - pos,
{
    reveal(walk);
    if pos < end {
        match spec_parse_header(b, pos) {
            Err(e) => {},
            Ok((h, hl)) => {
                if h.size <= end - pos && h.size != 0 {
                    match payload_outcome(b, pos + hl, h) {
                        None => {
                            lemma_walk_unreached(b, pos + h.size, end, s, k);
                        },
                        Some(Err(e)) => {},
                        Some(Ok(eff)) => {
                            if eff <= h.size {
                                if eff > 0 && h.size - eff > 8 {
                                    lemma_walk_unreached(b, pos + eff, pos + h.size, s, k + 1);
                                }
                                let inner = if eff > 0 && h.size - eff > 8 {
                                    walk(b, pos + eff, pos + h.size, None, k + 1)
                                } else {
                                    done()
                                };
                                if inner.res is Ok && !inner.stopped {
                                    lemma_walk_unreached(
                                        b,
                                        pos + h.size,
                                        end,
                                        s,
                                        k + 1 + inner.visits.len(),
                                    );
                                }
                            }
                        },
                    }
                }
            },
        }
    }
}

/// A walk without a stop never stops.
pub proof fn lemma_walk_unstopped(b: Seq<u8>, pos: int, end: int, k: nat)
    ensures
        !walk(b, pos, end, None, k).stopped,
    decreases end - pos,
{
    reveal(walk);
    if pos < end {
        match spec_parse_header(b, pos) {
            Err(e) => {},
            Ok((h, hl)) => {
                if h.size <= end - pos && h.size != 0 {
                    match payload_outcome(b, pos + hl, h) {
                        None => {
                            lemma_walk_unstopped(b, pos + h.size, end, k);
                        },
                        Some(Err(e)) => {},
                        Some(Ok(eff)) => {
                            if eff <= h.size {
                                if eff > 0 && h.size - eff > 8 {
                                    lemma_walk_unstopped(b, pos + eff, pos + h.size, k + 1);
                                }
                                let inner = if eff > 0 && h.size - eff > 8 {
                                    walk(b, pos + eff, pos + h.size, None, k + 1)
                                } else {
                                    done()
                                };
                                if inner.res is Ok {
                                    lemma_walk_unstopped(b, pos + h.size, end, k + 1 + inner.visits.len());
                                }
                            }
                        },
                    }
                }
            },
        }
    }
}

/// What the region walker promises: its result follows the walk with the
/// stop it reports, and each visit got the answer that walk gives it.
pub open spec fn region_result<F: FnMut(&BoxData) -> Scanning>(
    b: Seq<u8>,
    start: int,
    end: int,
    k: nat,
    scanning: bool,
    f: F,
    res: Result<(Vec<Mp4BoxTree>, bool), Error>,
    stop: Option<nat>,
) -> bool {
    let w = walk(b, start, end, stop, k);
    &&& !scanning ==> stop is None
    &&& stop is Some <==> w.stopped
    &&& stop is Some ==> k <= stop->Some_0 < k + w.visits.len()
    &&& res is Err ==> stop is None
    &&& match res {
        Ok((trees, stopped)) => {
            &&& w.res is Ok
            &&& stopped == w.stopped
            &&& !scanning ==> forest_matches(b, trees@, w.res->Ok_0)
            &&& scanning ==> trees@.len() == 0
        },
        Err(e) => w.res == Err::<Seq<Shape>, Error>(e),
    }
    &&& scanning ==> all_answered(b, f, w.visits, stop, k)
}

impl Mp4Box {
    pub fn new(header: BoxHeader, data: BoxData) -> (r: Mp4Box)
        ensures
            r.header == header,
            r.data == data,
    {
        Mp4Box { header, data }
    }

    /// The synthetic root that stands for a whole stream.
    pub fn phtm() -> (r: Mp4Box)
        ensures
            r.header == (BoxHeader { typ: BoxType::Phtm, size: 0, offset: 0 }),
            r.data is Phtm,
    {
        Mp4Box { header: BoxHeader { typ: BoxType::Phtm, size: 0, offset: 0 }, data: BoxData::Phtm(PhtmBox) }
    }
}

impl Clone for Mp4BoxTree {
    /// A deep copy: the node and every nested tree.
    fn clone(&self) -> (r: Mp4BoxTree)
        decreases self,
    {
        let mut children: Vec<Mp4BoxTree> = Vec::new();
        let mut i: usize = 0;
        while i < self.children.len()
            invariant
                i <= self.children@.len(),
            decreases self.children@.len() - i,
        {
            proof {
                assert(decreases_to!(self => self.children));
                assert(decreases_to!(self.children => self.children@[i as int]));
            }
            children.push(self.children[i].clone());
            i = i + 1;
        }
        Mp4BoxTree { node: self.node.clone(), children }
    }
}

impl Mp4BoxTree {
    pub fn new(node: Mp4Box, children: Vec<Mp4BoxTree>) -> (r: Mp4BoxTree)
        ensures
            r.node == node,
            r.children == children,
    {
        Mp4BoxTree { node, children }
    }

    /// Walks the region `[start, end)` of `b`. With `scanning`, each decoded
    /// box is handed to `cb` and nothing is kept; a `Stop` ends the walk
    /// across all levels. Without it, the decoded boxes are returned as trees.
    #[verifier::rlimit(100)]
    fn read<F: FnMut(&BoxData) -> Scanning>(
        b: &[u8],
        start: u64,
        end: u64,
        cb: &mut F,
        scanning: bool,
        Ghost(k): Ghost<nat>,
    ) -> (r: (Result<(Vec<Mp4BoxTree>, bool), Error>, Ghost<Option<nat>>))
        requires
            start <= end,
            b@.len() <= isize::MAX,
            scanning ==> forall|d: &BoxData| call_requires(*old(cb), (d,)),
        ensures
            *final(cb) == *old(cb),
            region_result(b@, start as int, end as int, k, scanning, *old(cb), r.0, r.1@),
        decreases end - start,
    {
        let ghost f = *cb;
        proof {
            lemma_walk_unstopped(b@, start as int, end as int, k);
        }
        let mut pos = start;
        let mut trees: Vec<Mp4BoxTree> = Vec::new();
        let ghost mut acc_s: Seq<Shape> = seq![];
        let ghost mut acc_v: Seq<Visit> = seq![];
        proof {
            assert forall|s: Option<nat>| beyond(s, k + acc_v.len()) implies #[trigger] walk(
                b@,
                start as int,
                end as int,
                s,
                k,
            ) == prepend(acc_s, acc_v, walk(b@, pos as int, end as int, s, k + acc_v.len())) by {
                let w = walk(b@, start as int, end as int, s, k);
                assert(acc_v + w.visits =~= w.visits);
                match w.res {
                    Ok(x) => assert(acc_s + x =~= x),
                    Err(e) => {},
                }
            }
        }
        while pos < end
            invariant
                start <= pos <= end,
                *cb == f,
                f == *old(cb),
                b@.len() <= isize::MAX,
                scanning ==> forall|d: &BoxData| call_requires(f, (d,)),
                forall|s: Option<nat>|
                    beyond(s, k + acc_v.len()) ==> #[trigger] walk(b@, start as int, end as int, s, k)
                        == prepend(acc_s, acc_v, walk(b@, pos as int, end as int, s, k + acc_v.len())),
                !scanning ==> forest_matches(b@, trees@, acc_s),
                scanning ==> trees@.len() == 0,
                scanning ==> all_answered(b@, f, acc_v, None, k),
            ensures
                *cb == f,
                pos < end ==> walk(b@, pos as int, end as int, None, k + acc_v.len()) == done(),
                forall|s: Option<nat>|
                    beyond(s, k + acc_v.len()) ==> #[trigger] walk(b@, start as int, end as int, s, k)
                        == prepend(acc_s, acc_v, walk(b@, pos as int, end as int, s, k + acc_v.len())),
                !scanning ==> forest_matches(b@, trees@, acc_s),
                scanning ==> trees@.len() == 0,
                scanning ==> all_answered(b@, f, acc_v, None, k),
            decreases end - pos,
        {
            let ghost vi: nat = k + acc_v.len();
            let ghost whole = walk(b@, start as int, end as int, None, k);
            proof {
                lemma_walk_step(b@, pos as int, end as int, None, vi);
                assert(whole == prepend(acc_s, acc_v, walk(b@, pos as int, end as int, None, vi)));
            }
            if pos > b.len() as u64 {
                return (Err(Error::UnexpectedEof), Ghost(None));
            }
            let (h, hl) = match parse_header(b, pos as usize) {
                Ok(p) => p,
                Err(e) => return (Err(e), Ghost(None)),
            };
            if h.size > end - pos {
                return (Err(Error::InvalidData(Reason::BoxLargerThanRegion)), Ghost(None));
            }
            if h.size == 0 {
                break;
            }
            let data_pos = pos as usize + hl;
            let ghost v = seq![(h, data_pos as int)];
            match decode_payload(b, data_pos, &h) {
                None => {
                    proof {
                        assert forall|s: Option<nat>| beyond(s, vi) implies #[trigger] walk(
                            b@,
                            start as int,
                            end as int,
                            s,
                            k,
                        ) == prepend(acc_s, acc_v, walk(b@, (pos + h.size) as int, end as int, s, vi)) by {
                            lemma_walk_step(b@, pos as int, end as int, s, vi);
                        }
                    }
                    pos = pos + h.size;
                },
                Some(Err(e)) => {
                    return (Err(e), Ghost(None));
                },
                Some(Ok(data)) => {
                    if scanning {
                        let a = cb(&data);
                        proof {
                            lemma_answered(b@, f, (h, data_pos as int), a, data);
                        }
                        if let Scanning::Stop = a {
                            proof {
                                lemma_walk_step(b@, pos as int, end as int, Some(vi), vi);
                                let w = walk(b@, start as int, end as int, Some(vi), k);
                                assert(w.visits =~= acc_v + v);
                                assert forall|i: int| 0 <= i < w.visits.len() implies answered(
                                    b@,
                                    f,
                                    #[trigger] w.visits[i],
                                    answer_at(Some(vi), k + i),
                                ) by {
                                    if i < acc_v.len() {
                                        assert(answered(b@, f, acc_v[i], answer_at(None, k + i)));
                                    }
                                }
                            }
                            return (Ok((Vec::new(), true)), Ghost(Some(vi)));
                        }
                    }
                    let eff = data.effective_size();
                    if eff > h.size {
                        proof {
                            assert(whole.visits =~= acc_v + v);
                        }
                        return (Err(Error::InvalidData(Reason::PayloadLargerThanBox)), Ghost(None));
                    }
                    let remain = h.size - eff;
                    let ghost inner_w = inner_walk(b@, pos as int, h, eff as int, None, vi + 1);
                    let mut children: Vec<Mp4BoxTree> = Vec::new();
                    if remain > HEADER_SIZE {
                        let (res, g) = Self::read(b, pos + eff, pos + h.size, cb, scanning, Ghost(vi + 1));
                        match res {
                            Err(e) => {
                                proof {
                                    assert(g@ is None);
                                    assert(inner_w.res == Err::<Seq<Shape>, Error>(e));
                                    assert(walk(b@, pos as int, end as int, None, vi) == failed(e, v + inner_w.visits));
                                    assert(whole.visits =~= acc_v + (v + inner_w.visits));
                                }
                                return (Err(e), Ghost(None));
                            },
                            Ok((cs, stopped)) => {
                                if stopped {
                                    proof {
                                        let j = g@->Some_0;
                                        lemma_walk_step(b@, pos as int, end as int, Some(j), vi);
                                        let w = walk(b@, start as int, end as int, Some(j), k);
                                        let iw = inner_walk(b@, pos as int, h, eff as int, Some(j), vi + 1);
                                        assert(w.visits =~= acc_v + (v + iw.visits));
                                        assert forall|i: int| 0 <= i < w.visits.len() implies answered(
                                            b@,
                                            f,
                                            #[trigger] w.visits[i],
                                            answer_at(Some(j), k + i),
                                        ) by {
                                            if i < acc_v.len() {
                                                assert(answered(b@, f, acc_v[i], answer_at(None, k + i)));
                                            } else if i > acc_v.len() {
                                                let m = i - acc_v.len() - 1;
                                                assert(w.visits[i] == iw.visits[m]);
                                                assert(answered(b@, f, iw.visits[m], answer_at(Some(j), vi + 1 + m)));
                                            }
                                        }
                                    }
                                    return (Ok((Vec::new(), true)), g);
                                }
                                children = cs;
                            },
                        }
                    }
                    let ghost sh = Shape { header: h, data_pos: data_pos as int, eff: eff as int, children: inner_w.res->Ok_0 };
                    let ghost new_v = acc_v + (v + inner_w.visits);
                    proof {
                        assert forall|s: Option<nat>| beyond(s, k + new_v.len()) implies #[trigger] walk(
                            b@,
                            start as int,
                            end as int,
                            s,
                            k,
                        ) == prepend(
                            acc_s + seq![sh],
                            new_v,
                            walk(b@, (pos + h.size) as int, end as int, s, k + new_v.len()),
                        ) by {
                            lemma_walk_known(b@, pos as int, end as int, s, vi, h, hl as int, eff as int);
                            lemma_prepend_prepend(
                                acc_s,
                                acc_v,
                                seq![sh],
                                v + inner_w.visits,
                                walk(b@, (pos + h.size) as int, end as int, s, k + new_v.len()),
                            );
                        }
                        if scanning {
                            assert forall|i: int| 0 <= i < new_v.len() implies answered(
                                b@,
                                f,
                                #[trigger] new_v[i],
                                answer_at(None, k + i),
                            ) by {
                                if i < acc_v.len() {
                                    assert(new_v[i] == acc_v[i]);
                                } else if i > acc_v.len() {
                                    let m = i - acc_v.len() - 1;
                                    assert(new_v[i] == inner_w.visits[m]);
                                    assert(answered(b@, f, inner_w.visits[m], answer_at(None, vi + 1 + m)));
                                }
                            }
                        }
                    }
                    if !scanning {
                        let t = Mp4BoxTree::new(Mp4Box::new(h, data), children);
                        let ghost before = trees@;
                        trees.push(t);
                        proof {
                            assert(tree_matches(b@, t, sh));
                            assert forall|i: int| 0 <= i < acc_s.len() + 1 implies tree_matches(
                                b@,
                                #[trigger] trees@[i],
                                (acc_s + seq![sh])[i],
                            ) by {
                                if i < acc_s.len() {
                                    assert(trees@[i] == before[i]);
                                }
                            }
                        }
                    }
                    proof {
                        acc_s = acc_s + seq![sh];
                        acc_v = new_v;
                    }
                    pos = pos + h.size;
                },
            }
        }
        proof {
            if pos >= end {
                lemma_walk_empty(b@, pos as int, end as int, None, k + acc_v.len());
            }
            let w = walk(b@, start as int, end as int, None, k);
            assert(w == prepend(acc_s, acc_v, done()));
            assert(acc_s + seq![] =~= acc_s);
            assert(acc_v + seq![] =~= acc_v);
        }
        (Ok((trees, false)), Ghost(None))
    }

    pub fn node_header_ref(&self) -> (r: &BoxHeader)
        ensures
            *r == self.node.header,
    {
        &self.node.header
    }

    pub fn node_data_ref(&self) -> (r: &BoxData)
        ensures
            *r == self.node.data,
    {
        &self.node.data
    }
}

/// Without a stop, how many boxes were visited before does not matter.
pub proof fn lemma_walk_renumbered(b: Seq<u8>, pos: int, end: int, k: nat)
    ensures
        walk(b, pos, end, None, k) == walk(b, pos, end, None, 0),
    decreases end - pos,
{
    if pos >= end {
        lemma_walk_empty(b, pos, end, None, k);
        lemma_walk_empty(b, pos, end, None, 0);
    } else {
        lemma_walk_step(b, pos, end, None, k);
        lemma_walk_step(b, pos, end, None, 0);
        match spec_parse_header(b, pos) {
            Err(e) => {},
            Ok((h, hl)) => {
                if h.size <= end - pos && h.size != 0 {
                    match payload_outcome(b, pos + hl, h) {
                        None => {
                            lemma_walk_renumbered(b, pos + h.size, end, k);
                        },
                        Some(Err(e)) => {},
                        Some(Ok(eff)) => {
                            if eff <= h.size && eff > 0 && h.size - eff > 8 {
                                lemma_walk_renumbered(b, pos + eff, pos + h.size, k + 1);
                                lemma_walk_renumbered(b, pos + eff, pos + h.size, 1);
                            }
                            let inner = inner_walk(b, pos, h, eff as int, None, k + 1);
                            lemma_walk_renumbered(b, pos + h.size, end, k + 1 + inner.visits.len());
                            lemma_walk_renumbered(b, pos + h.size, end, 1 + inner.visits.len());
                        },
                    }
                }
            },
        }
    }
}

/// A box that declares more bytes than remain in its region is rejected,
/// whatever comes after it.
pub proof fn lemma_overrun_rejected(b: Seq<u8>, pos: int, end: int, s: Option<nat>, k: nat)
    requires
        pos < end,
        spec_header(b, pos) is Ok,
        spec_header(b, pos)->Ok_0.size > end - pos,
    ensures
        walk(b, pos, end, s, k).res == Err::<Seq<Shape>, Error>(Error::InvalidData(Reason::BoxLargerThanRegion)),
        walk(b, pos, end, s, k).visits.len() == 0,
{
    lemma_walk_step(b, pos, end, s, k);
}

/// A header that declares size zero ends its region: nothing from there on
/// is decoded or visited, and the region ends without error.
pub proof fn lemma_zero_size_ends_region(b: Seq<u8>, pos: int, end: int, s: Option<nat>, k: nat)
    requires
        pos < end,
        spec_header(b, pos) is Ok,
        spec_header(b, pos)->Ok_0.size == 0,
    ensures
        walk(b, pos, end, s, k) == done(),
{
    lemma_walk_step(b, pos, end, s, k);
}

/// A malformed extended size is rejected wherever a box starts.
pub proof fn lemma_large_size_rejected_in_region(b: Seq<u8>, pos: int, end: int, s: Option<nat>, k: nat)
    requires
        pos < end,
        fits(b, pos, 16),
        be_at(b, pos, 4) == 1,
        1 <= be_at(b, pos + 8, 8) <= 15,
    ensures
        walk(b, pos, end, s, k).res == Err::<Seq<Shape>, Error>(Error::InvalidData(Reason::LargeSizeTooSmall)),
{
    lemma_large_size_too_small(b, pos);
    lemma_walk_step(b, pos, end, s, k);
}

/// When the first box visited answers `Stop`, no other box is visited, and
/// the walk ends without error and without any tree.
pub proof fn lemma_stop_at_first(b: Seq<u8>, pos: int, end: int, k: nat)
    ensures
        walk(b, pos, end, Some(k), k).visits.len() <= 1,
        walk(b, pos, end, Some(k), k).visits.len() == 1 ==> walk(b, pos, end, Some(k), k).res
            == Ok::<Seq<Shape>, Error>(seq![]) && walk(b, pos, end, Some(k), k).stopped,
    decreases end - pos,
{
    if pos >= end {
        lemma_walk_empty(b, pos, end, Some(k), k);
    } else {
        lemma_walk_step(b, pos, end, Some(k), k);
        match spec_parse_header(b, pos) {
            Err(e) => {},
            Ok((h, hl)) => {
                if h.size <= end - pos && h.size != 0 {
                    match payload_outcome(b, pos + hl, h) {
                        None => {
                            lemma_stop_at_first(b, pos + h.size, end, k);
                        },
                        _ => {},
                    }
                }
            },
        }
    }
}

/// A scan whose callback can only answer `Stop` visits at most one box, and
/// when it visits one, that box is the one that stops it and the scan succeeds.
pub proof fn lemma_scan_stops_at_first<F: FnMut(&BoxData) -> Scanning>(
    b: Seq<u8>,
    size: int,
    stop: Option<nat>,
    f: F,
    r: Result<(), Error>,
)
    requires
        scan_outcome(b, size, stop, f, r),
        forall|d: BoxData| !call_ensures(f, (&d,), Scanning::Continue),
    ensures
        walk(b, 0, size, stop, 0).visits.len() <= 1,
        walk(b, 0, size, stop, 0).visits.len() == 1 ==> r is Ok && stop == Some(0nat),
{
    let w = walk(b, 0, size, stop, 0);
    if w.visits.len() > 0 {
        assert(answered(b, f, w.visits[0], answer_at(stop, 0)));
        if stop != Some(0nat) {
            let d = choose|d: BoxData| d.decodes(b, w.visits[0].1, w.visits[0].0) && call_ensures(f, (&d,), Scanning::Continue);
            assert(call_ensures(f, (&d,), Scanning::Continue));
        }
        lemma_stop_at_first(b, 0, size, 0);
    }
}

/// Whether a box of a known kind starts at `pos`, declares `size` bytes, and
/// decodes with its children; its layout is then `sh`.
pub open spec fn known_box_at(b: Seq<u8>, pos: int, size: int, sh: Shape) -> bool {
    exists|hl: int, eff: int| {
        &&& spec_parse_header(b, pos) == Ok::<(BoxHeader, int), Error>((sh.header, hl))
        &&& sh.header.size == size > 0
        &&& payload_outcome(b, pos + hl, sh.header) == Some(Ok::<nat, Error>(eff as nat))
        &&& 0 < eff <= size
        &&& sh.data_pos == pos + hl
        &&& sh.eff == eff
        &&& inner_walk(b, pos, sh.header, eff, None, 0).res == Ok::<Seq<Shape>, Error>(sh.children)
    }
}

/// Whether a box of a kind that traversal skips starts at `pos` and declares `size` bytes.
pub open spec fn skipped_box_at(b: Seq<u8>, pos: int, size: int) -> bool {
    exists|h: BoxHeader, hl: int| {
        &&& spec_parse_header(b, pos) == Ok::<(BoxHeader, int), Error>((h, hl))
        &&& h.size == size > 0
        &&& payload_outcome(b, pos + hl, h) is None
    }
}

proof fn lemma_known_box_step(b: Seq<u8>, pos: int, end: int, size: int, sh: Shape, k: nat)
    requires
        pos + size <= end,
        known_box_at(b, pos, size, sh),
    ensures
        walk(b, pos, end, None, k).res == (match walk(b, pos + size, end, None, 0).res {
            Ok(x) => Ok::<Seq<Shape>, Error>(seq![sh] + x),
            Err(e) => Err::<Seq<Shape>, Error>(e),
        }),
{
    let (hl, eff) = choose|hl: int, eff: int| {
        &&& spec_parse_header(b, pos) == Ok::<(BoxHeader, int), Error>((sh.header, hl))
        &&& sh.header.size == size > 0
        &&& payload_outcome(b, pos + hl, sh.header) == Some(Ok::<nat, Error>(eff as nat))
        &&& 0 < eff <= size
        &&& sh.data_pos == pos + hl
        &&& sh.eff == eff
        &&& inner_walk(b, pos, sh.header, eff, None, 0).res == Ok::<Seq<Shape>, Error>(sh.children)
    };
    let h = sh.header;
    if h.size - eff > 8 {
        lemma_walk_renumbered(b, pos + eff, pos + h.size, k + 1);
    }
    let inner = inner_walk(b, pos, h, eff, None, k + 1);
    lemma_walk_unstopped(b, pos + eff, pos + h.size, k + 1);
    lemma_walk_known(b, pos, end, None, k, h, hl, eff);
    lemma_walk_renumbered(b, pos + size, end, k + 1 + inner.visits.len());
    assert(Shape { header: h, data_pos: pos + hl, eff, children: inner.res->Ok_0 } == sh);
}

/// A known box between two boxes of kinds that traversal skips, the three
/// filling the region, gives a forest of exactly that one box.
pub proof fn lemma_skipped_around_known(b: Seq<u8>, head: int, mid: int, tail: int, end: int, sh: Shape)
    requires
        head < mid < tail < end,
        skipped_box_at(b, head, mid - head),
        known_box_at(b, mid, tail - mid, sh),
        skipped_box_at(b, tail, end - tail),
    ensures
        walk(b, head, end, None, 0).res == Ok::<Seq<Shape>, Error>(seq![sh]),
{
    lemma_walk_step(b, head, end, None, 0);
    lemma_known_box_step(b, mid, end, tail - mid, sh, 0);
    lemma_walk_step(b, tail, end, None, 0);
    lemma_walk_empty(b, end, end, None, 0);
    assert(seq![sh] + Seq::<Shape>::empty() =~= seq![sh]);
}

/// A region filled exactly by known boxes, each starting where the one
/// before ends, decodes to one node per box, in stream order, each node
/// holding its box's header and the nodes of the box's own nested region.
pub proof fn lemma_tiled_region(b: Seq<u8>, offs: Seq<int>, shapes: Seq<Shape>)
    requires
        offs.len() == shapes.len() + 1,
        forall|i: int| 0 <= i < shapes.len() ==> #[trigger] offs[i] < offs[i + 1],
        forall|i: int|
            0 <= i < shapes.len() ==> known_box_at(b, #[trigger] offs[i], offs[i + 1] - offs[i], shapes[i]),
    ensures
        walk(b, offs[0], offs.last(), None, 0).res == Ok::<Seq<Shape>, Error>(shapes),
    decreases shapes.len(),
{
    if shapes.len() == 0 {
        lemma_walk_empty(b, offs[0], offs.last(), None, 0);
        assert(shapes =~= Seq::<Shape>::empty());
    } else {
        let rest_offs = offs.drop_first();
        let rest_shapes = shapes.drop_first();
        assert forall|i: int| 0 <= i < rest_shapes.len() implies known_box_at(
            b,
            #[trigger] rest_offs[i],
            rest_offs[i + 1] - rest_offs[i],
            rest_shapes[i],
        ) by {
            assert(known_box_at(b, offs[i + 1], offs[i + 2] - offs[i + 1], shapes[i + 1]));
        }
        assert forall|i: int| 0 <= i < offs.len() - 1 implies offs[i] < offs.last() by {
            lemma_offsets_increase(offs, shapes.len() as int, i);
        }
        assert(known_box_at(b, offs[0], offs[1] - offs[0], shapes[0]));
        assert(rest_offs[0] == offs[1]);
        assert(rest_offs.last() == offs.last());
        if shapes.len() > 1 {
            lemma_offsets_increase(offs, shapes.len() as int, 1);
        }
        lemma_tiled_region(b, rest_offs, rest_shapes);
        lemma_known_box_step(b, offs[0], offs.last(), offs[1] - offs[0], shapes[0], 0);
        assert(walk(b, offs[1], offs.last(), None, 0).res == Ok::<Seq<Shape>, Error>(rest_shapes));
        assert(seq![shapes[0]] + rest_shapes =~= shapes);
    }
}

proof fn lemma_offsets_increase(offs: Seq<int>, n: int, i: int)
    requires
        offs.len() == n + 1,
        forall|j: int| 0 <= j < n ==> #[trigger] offs[j] < offs[j + 1],
        0 <= i < n,
    ensures
        offs[i] < offs[n],
    decreases n - i,
{
    if i + 1 < n {
        lemma_offsets_increase(offs, n, i + 1);
    }
}

/// What a scan of the first `size` bytes of `b` with callback `f` returned,
/// when the visit numbered `stop` (if any) is the one that answered `Stop`:
/// the walk up to that visit decoded without error exactly when `r` is `Ok`,
/// and `f` may have given every answer that walk got.
pub open spec fn scan_outcome<F: FnMut(&BoxData) -> Scanning>(
    b: Seq<u8>,
    size: int,
    stop: Option<nat>,
    f: F,
    r: Result<(), Error>,
) -> bool {
    let w = walk(b, 0, size, stop, 0);
    &&& stop is Some ==> stop->Some_0 < w.visits.len() && w.stopped
    &&& stop is None ==> !w.stopped
    &&& match r {
        Ok(()) => w.res is Ok,
        Err(e) => w.res == Err::<Seq<Shape>, Error>(e),
    }
    &&& all_answered(b, f, w.visits, stop, 0)
}

/// Decodes the boxes in the first `size` bytes of `b` into a forest, in
/// stream order.
pub fn read_mp4_box(b: &[u8], size: u64) -> (r: Result<Vec<Mp4BoxTree>, Error>)
    requires
        b@.len() <= isize::MAX,
    ensures
        match spec_forest(b@, size as int) {
            Ok(ss) => r is Ok && forest_matches(b@, r->Ok_0@, ss),
            Err(e) => r == Err::<Vec<Mp4BoxTree>, Error>(e),
        },
{
    let mut keep = |d: &BoxData| -> (a: Scanning) { Scanning::Continue };
    let (res, _) = Mp4BoxTree::read(b, 0, size, &mut keep, false, Ghost(0));
    match res {
        Ok((trees, _)) => {
            let root = Mp4BoxTree::new(Mp4Box::phtm(), trees);
            Ok(root.children)
        },
        Err(e) => Err(e),
    }
}

/// Walks the boxes in the first `size` bytes of `b`, handing each decoded box
/// to `callback` before its children; the first `Stop` ends the whole scan
/// successfully. Nothing is kept.
pub fn scan_mp4_box<F: FnMut(&BoxData) -> Scanning>(b: &[u8], size: u64, callback: &mut F) -> (r: Result<(), Error>)
    requires
        b@.len() <= isize::MAX,
        forall|d: &BoxData| call_requires(*old(callback), (d,)),
    ensures
        exists|stop: Option<nat>| scan_outcome(b@, size as int, stop, *old(callback), r),
{
    let (res, g) = Mp4BoxTree::read(b, 0, size, callback, true, Ghost(0));
    let r = match res {
        Ok(_) => Ok(()),
        Err(e) => Err(e),
    };
    assert(scan_outcome(b@, size as int, g@, *old(callback), r));
    r
}

} // verus!
