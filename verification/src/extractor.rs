//! Extraction of balanced, string-aware JSON object literals from free text.
//!
//! The scan walks the text once, left to right, tracking brace depth, whether
//! the position is inside a quoted string, and whether the next character is
//! escaped. A candidate starts when the depth goes from zero to one outside a
//! string and ends when the depth returns to zero; quotes and braces inside
//! string literals do not count. The whole behaviour is captured by the spec
//! functions `scan_char`, `scan_seq` and `extraction`, and the executable
//! `JsonParser` methods are proved to return exactly `extraction`.

use vstd::prelude::*;
use vstd::string::*;
use crate::textutil::views_of;

verus! {

/// The state of the scan after some prefix of the text: the current brace
/// depth (an unmatched closing brace drives it negative), the string and
/// escape flags, the characters of the candidate currently open (meaningful
/// while `depth >= 1`), and the candidates emitted so far.
pub ghost struct ScanState {
    pub depth: int,
    pub in_str: bool,
    pub esc: bool,
    pub cur: Seq<char>,
    pub out: Seq<Seq<char>>,
}

pub open spec fn scan_init() -> ScanState {
    ScanState { depth: 0, in_str: false, esc: false, cur: Seq::empty(), out: Seq::empty() }
}

/// One step of the scan.
pub open spec fn scan_char(st: ScanState, c: char) -> ScanState {
    if st.esc {
        ScanState { esc: false, cur: st.cur.push(c), ..st }
    } else if c == '\\' && st.in_str {
        ScanState { esc: true, cur: st.cur.push(c), ..st }
    } else if c == '"' {
        ScanState { in_str: !st.in_str, cur: st.cur.push(c), ..st }
    } else if c == '{' && !st.in_str {
        if st.depth == 0 {
            ScanState { depth: 1, cur: seq![c], ..st }
        } else {
            ScanState { depth: st.depth + 1, cur: st.cur.push(c), ..st }
        }
    } else if c == '}' && !st.in_str {
        if st.depth == 1 {
            ScanState { depth: 0, cur: Seq::empty(), out: st.out.push(st.cur.push(c)), ..st }
        } else {
            ScanState { depth: st.depth - 1, cur: st.cur.push(c), ..st }
        }
    } else {
        ScanState { cur: st.cur.push(c), ..st }
    }
}

/// The scan folded over a text.
pub open spec fn scan_seq(st: ScanState, s: Seq<char>) -> ScanState
    decreases s.len(),
{
    if s.len() == 0 {
        st
    } else {
        scan_seq(scan_char(st, s[0]), s.drop_first())
    }
}

/// The candidate substrings that the scan of `s` emits, in order.
pub open spec fn extraction(s: Seq<char>) -> Seq<Seq<char>> {
    scan_seq(scan_init(), s).out
}

/// A state outside any candidate, string and escape: the state in which the
/// scan both starts and ends on well-formed input.
pub open spec fn clean(st: ScanState) -> bool {
    st.depth == 0 && !st.in_str && !st.esc
}

/// Folding over a concatenation is folding over the parts in turn.
pub proof fn lemma_scan_seq_app(st: ScanState, a: Seq<char>, b: Seq<char>)
    ensures
        scan_seq(st, a + b) == scan_seq(scan_seq(st, a), b),
    decreases a.len(),
{
    if a.len() == 0 {
        assert(a + b =~= b);
    } else {
        assert((a + b)[0] == a[0]);
        assert((a + b).drop_first() =~= a.drop_first() + b);
        lemma_scan_seq_app(scan_char(st, a[0]), a.drop_first(), b);
    }
}

/// Appending one character steps the scan once more.
pub proof fn lemma_scan_seq_snoc(st: ScanState, s: Seq<char>, c: char)
    ensures
        scan_seq(st, s.push(c)) == scan_char(scan_seq(st, s), c),
{
    assert(s.push(c) =~= s + seq![c]);
    lemma_scan_seq_app(st, s, seq![c]);
    let st2 = scan_seq(st, s);
    assert(seq![c].len() == 1 && seq![c][0] == c);
    assert(seq![c].drop_first() =~= Seq::<char>::empty());
    assert(scan_seq(st2, seq![c]) == scan_seq(scan_char(st2, c), Seq::<char>::empty()));
    assert(scan_seq(scan_char(st2, c), Seq::<char>::empty()) == scan_char(st2, c));
}

/// The emitted candidates only grow: what was out before a scan is still a
/// prefix of what is out after it.
pub proof fn lemma_scan_out_grows(st: ScanState, s: Seq<char>)
    ensures
        scan_seq(st, s).out.len() >= st.out.len(),
        scan_seq(st, s).out.take(st.out.len() as int) == st.out,
    decreases s.len(),
{
    if s.len() == 0 {
        assert(st.out.take(st.out.len() as int) =~= st.out);
    } else {
        let st1 = scan_char(st, s[0]);
        lemma_scan_out_grows(st1, s.drop_first());
        let r = scan_seq(st1, s.drop_first());
        assert(r.out.take(st1.out.len() as int) == st1.out);
        assert(r.out.take(st.out.len() as int) =~= r.out.take(st1.out.len() as int).take(
            st.out.len() as int,
        ));
        assert(st1.out.take(st.out.len() as int) =~= st.out);
    }
}

/// Two states that agree on depth, flags and (when one is open) the current
/// candidate stay in lockstep: they emit the same candidates from here on.
pub open spec fn in_sync(st1: ScanState, st2: ScanState) -> bool {
    &&& st1.depth == st2.depth
    &&& st1.in_str == st2.in_str
    &&& st1.esc == st2.esc
    &&& (st1.depth >= 1 ==> st1.cur == st2.cur)
}

pub proof fn lemma_scan_sync(st1: ScanState, st2: ScanState, s: Seq<char>)
    requires
        in_sync(st1, st2),
    ensures
        in_sync(scan_seq(st1, s), scan_seq(st2, s)),
        scan_seq(st1, s).out == st1.out + scan_seq(st2, s).out.skip(st2.out.len() as int),
    decreases s.len(),
{
    let r1 = scan_seq(st1, s);
    let r2 = scan_seq(st2, s);
    if s.len() == 0 {
        assert(r2.out.skip(st2.out.len() as int) =~= Seq::<Seq<char>>::empty());
        assert(r1.out =~= st1.out + r2.out.skip(st2.out.len() as int));
    } else {
        let c = s[0];
        let n1 = scan_char(st1, c);
        let n2 = scan_char(st2, c);
        assert(in_sync(n1, n2));
        lemma_scan_sync(n1, n2, s.drop_first());
        if n1.out.len() == st1.out.len() {
            // no emission on this step
            assert(n1.out == st1.out);
            assert(n2.out == st2.out);
        } else {
            // both emitted the same candidate
            let x = st1.cur.push(c);
            assert(n1.out == st1.out.push(x));
            assert(n2.out == st2.out.push(x));
            lemma_scan_out_grows(n2, s.drop_first());
            assert(r2.out.take(n2.out.len() as int) == n2.out);
            assert(r2.out[st2.out.len() as int] == n2.out[st2.out.len() as int]);
            assert(r2.out.skip(st2.out.len() as int) =~= seq![x] + r2.out.skip(
                st2.out.len() as int + 1,
            ));
            assert(st1.out + r2.out.skip(st2.out.len() as int) =~= st1.out.push(x) + r2.out.skip(
                n2.out.len() as int,
            ));
        }
    }
}

/// Text with no brace and no quote: scanned from a clean state it emits
/// nothing and leaves the state clean with the same output.
pub open spec fn prose(p: Seq<char>) -> bool {
    forall|i: int| 0 <= i < p.len() ==> p[i] != '{' && p[i] != '}' && p[i] != '"'
}

pub proof fn lemma_scan_prose(st: ScanState, p: Seq<char>)
    requires
        clean(st),
        prose(p),
    ensures
        clean(scan_seq(st, p)),
        scan_seq(st, p).out == st.out,
    decreases p.len(),
{
    if p.len() > 0 {
        assert(prose(p.drop_first())) by {
            assert(forall|i: int|
                0 <= i < p.drop_first().len() ==> p.drop_first()[i] == p[i + 1]);
        }
        lemma_scan_prose(scan_char(st, p[0]), p.drop_first());
    }
}

/// A text that is one whole candidate: scanned alone from the initial state
/// it emits exactly itself and ends clean.
pub open spec fn whole_object(o: Seq<char>) -> bool {
    &&& scan_seq(scan_init(), o).out == seq![o]
    &&& clean(scan_seq(scan_init(), o))
}

/// Prose segments interleaved with objects: parts[0] + objs[0] + parts[1] +
/// ... + objs[n-1] + parts[n].
pub open spec fn interleave(parts: Seq<Seq<char>>, objs: Seq<Seq<char>>) -> Seq<char>
    recommends
        parts.len() == objs.len() + 1,
    decreases objs.len(),
{
    if objs.len() == 0 {
        parts[0]
    } else {
        parts[0] + objs[0] + interleave(parts.drop_first(), objs.drop_first())
    }
}

/// Law: a text composed of whole objects interspersed with prose extracts to
/// exactly those objects, character-exact and in their original order. Braces
/// inside the objects' quoted strings do not disturb this, since
/// `whole_object` already admits any object whose own scan is balanced.
pub proof fn lemma_extraction_of_interleaved(parts: Seq<Seq<char>>, objs: Seq<Seq<char>>)
    requires
        parts.len() == objs.len() + 1,
        forall|i: int| 0 <= i < parts.len() ==> prose(#[trigger] parts[i]),
        forall|j: int| 0 <= j < objs.len() ==> whole_object(#[trigger] objs[j]),
    ensures
        extraction(interleave(parts, objs)) == objs,
        clean(scan_seq(scan_init(), interleave(parts, objs))),
    decreases objs.len(),
{
    if objs.len() == 0 {
        lemma_scan_prose(scan_init(), parts[0]);
        assert(extraction(parts[0]) =~= objs);
    } else {
        let text = interleave(parts, objs);
        let rest = interleave(parts.drop_first(), objs.drop_first());
        lemma_scan_seq_app(scan_init(), parts[0] + objs[0], rest);
        lemma_scan_seq_app(scan_init(), parts[0], objs[0]);
        assert(parts[0] + objs[0] + rest =~= (parts[0] + objs[0]) + rest);
        let st1 = scan_seq(scan_init(), parts[0]);
        lemma_scan_prose(scan_init(), parts[0]);
        // scanning the object from the clean st1 emits exactly the object
        lemma_scan_sync(st1, scan_init(), objs[0]);
        let st2 = scan_seq(st1, objs[0]);
        assert(st2.out =~= seq![objs[0]]);
        // scanning the remainder from the clean st2 appends the rest
        lemma_extraction_of_interleaved(parts.drop_first(), objs.drop_first());
        lemma_scan_sync(st2, scan_init(), rest);
        assert(scan_seq(st2, rest).out =~= seq![objs[0]] + objs.drop_first());
        assert(seq![objs[0]] + objs.drop_first() =~= objs);
    }
}

/// Law: a trailing unmatched opening brace contributes no entry: an opening
/// brace never emits.
pub proof fn lemma_trailing_open_adds_nothing(s: Seq<char>)
    ensures
        extraction(s.push('{')) == extraction(s),
{
    lemma_scan_seq_snoc(scan_init(), s, '{');
}

/// Scans free text for balanced JSON object candidates.
pub struct JsonParser;

impl JsonParser {
    pub fn new() -> Self {
        JsonParser
    }

    /// Returns every maximal balanced-brace substring of `response` that lies
    /// outside string literals, in order of appearance.
    pub fn extract_all_json(&self, response: &str) -> (r: Vec<String>)
        ensures
            views_of(r@) == extraction(response@),
    {
        let n = response.unicode_len();
        let mut out: Vec<String> = Vec::new();
        let mut depth: i128 = 0;
        let mut in_str = false;
        let mut esc = false;
        let mut start: usize = 0;
        let mut open = false;
        let mut i: usize = 0;
        while i < n
            invariant
                n == response@.len(),
                i <= n,
                ({
                    let st = scan_seq(scan_init(), response@.take(i as int));
                    &&& st.depth == depth as int
                    &&& st.in_str == in_str
                    &&& st.esc == esc
                    &&& (st.depth >= 1 <==> open)
                    &&& (open ==> start < i && st.cur == response@.subrange(
                        start as int,
                        i as int,
                    ))
                    &&& views_of(out@) == st.out
                }),
                -(i as int) <= depth as int <= i as int,
            decreases n - i,
        {
            let ghost st = scan_seq(scan_init(), response@.take(i as int));
            let c = response.get_char(i);
            proof {
                assert(response@.take(i as int + 1) =~= response@.take(i as int).push(
                    response@[i as int],
                ));
                lemma_scan_seq_snoc(scan_init(), response@.take(i as int), c);
            }
            if esc {
                esc = false;
            } else if c == '\\' && in_str {
                esc = true;
            } else if c == '"' {
                in_str = !in_str;
            } else if c == '{' && !in_str {
                if depth == 0 {
                    start = i;
                    open = true;
                    depth = 1;
                } else {
                    depth = depth + 1;
                }
            } else if c == '}' && !in_str {
                if depth == 1 {
                    let piece = response.substring_char(start, i + 1);
                    let owned = String::from_str(piece);
                    out.push(owned);
                    depth = 0;
                    open = false;
                    proof {
                        assert(st.cur.push(c) =~= response@.subrange(start as int, i as int + 1));
                        assert(views_of(out@) =~= st.out.push(st.cur.push(c)));
                    }
                } else {
                    depth = depth - 1;
                }
            }
            proof {
                if open && scan_char(st, c).depth >= 1 {
                    assert(scan_char(st, c).cur =~= response@.subrange(start as int, i as int + 1));
                }
                if !open && scan_char(st, c).depth == 1 {
                    // a candidate just opened at i
                    assert(scan_char(st, c).cur =~= response@.subrange(i as int, i as int + 1));
                }
            }
            i = i + 1;
        }
        proof {
            assert(response@.take(n as int) =~= response@);
        }
        out
    }

    /// The first candidate of `extract_all_json`, if any.
    pub fn extract_first_json(&self, response: &str) -> (r: Option<String>)
        ensures
            match r {
                Some(s) => extraction(response@).len() > 0 && s@ == extraction(response@)[0],
                None => extraction(response@).len() == 0,
            },
    {
        let mut all = self.extract_all_json(response);
        let ghost allv = all@;
        if all.len() == 0 {
            None
        } else {
            let first = all.remove(0);
            proof {
                assert(views_of(allv)[0] == extraction(response@)[0]);
            }
            Some(first)
        }
    }
}

} // verus!
