//! Message headers: the ordered header list of a request or response, its
//! block tokenizer under strict CRLF framing, and the conversion that splits
//! route-set headers on top-level commas.

pub mod header;

pub use header::Allow;
pub use header::Authorization;
pub use header::CSeq;
pub use header::CallId;
pub use header::Contact;
pub use header::ContentEncoding;
pub use header::ContentLength;
pub use header::ContentType;
pub use header::Expires;
pub use header::Header;
pub use header::MaxForwards;
pub use header::RecordRoute;
pub use header::Route;
pub use header::Server;
pub use header::Subject;
pub use header::Supported;
pub use header::To;
pub use header::UserAgent;
pub use header::Via;
pub use header::WwwAuthenticate;

use crate::error::TokenizerError;
use crate::textlex::slice_range;
use crate::textlex::is_ws;
use crate::textlex::spec_trimmed;
use crate::textlex::trimmed;
use crate::textlex::eq_ignore_case;
use header::header_matches;
use header::spec_render_header;
use header::spec_tokenize_header;
use header::Tokenizer as HeaderTokenizer;
use vstd::prelude::*;

verus! {

/// The view of a tokenized header line: name bytes and value bytes.
pub type HeaderTokView = (Seq<u8>, Seq<u8>);

/// The ordered headers of a message, insertion order preserved, duplicates
/// allowed.
#[derive(Debug, PartialEq, Eq, Clone)]
pub struct Headers(pub Vec<Header>);

impl Default for Headers {
    /// No headers.
    fn default() -> (r: Headers)
        ensures
            r.0@.len() == 0,
    {
        Headers(Vec::new())
    }
}

impl From<Vec<Header>> for Headers {
    /// Wraps an ordered header list.
    fn from(v: Vec<Header>) -> (r: Headers) {
        Headers(v)
    }
}

impl vstd::std_specs::convert::FromSpecImpl<Vec<Header>> for Headers {
    open spec fn obeys_from_spec() -> bool {
        true
    }

    open spec fn from_spec(v: Vec<Header>) -> Headers {
        Headers(v)
    }
}

/// The rendering of a header list: each header's line, in order.
pub open spec fn spec_render_headers(hs: Seq<Header>) -> Seq<u8>
    decreases hs.len(),
{
    if hs.len() == 0 {
        Seq::empty()
    } else {
        spec_render_header(hs[0]) + spec_render_headers(hs.subrange(1, hs.len() as int))
    }
}

/// Appending one header extends the rendering on the right.
pub proof fn lemma_render_headers_push(hs: Seq<Header>, h: Header)
    ensures
        spec_render_headers(hs.push(h)) == spec_render_headers(hs) + spec_render_header(h),
    decreases hs.len(),
{
    if hs.len() == 0 {
        assert(hs.push(h)[0] == h);
        assert(hs.push(h).subrange(1, 1) =~= Seq::<Header>::empty());
        assert(spec_render_headers(Seq::<Header>::empty()) =~= Seq::<u8>::empty());
        assert(spec_render_headers(hs.push(h)) =~= spec_render_header(h));
        assert(spec_render_headers(hs) + spec_render_header(h) =~= spec_render_header(h));
    } else {
        lemma_render_headers_push(hs.subrange(1, hs.len() as int), h);
        assert(hs.push(h).subrange(1, hs.push(h).len() as int) =~= hs.subrange(
            1,
            hs.len() as int,
        ).push(h));
        assert(hs.push(h)[0] == hs[0]);
        assert(spec_render_header(hs[0]) + (spec_render_headers(hs.subrange(1, hs.len() as int))
            + spec_render_header(h)) =~= (spec_render_header(hs[0]) + spec_render_headers(
            hs.subrange(1, hs.len() as int),
        )) + spec_render_header(h));
    }
}

impl Headers {
    /// Renders every header line, in order.
    pub fn render(&self) -> (r: Vec<u8>)
        ensures
            r@ == spec_render_headers(self.0@),
    {
        let mut out: Vec<u8> = Vec::new();
        let mut i: usize = 0;
        proof {
            assert(spec_render_headers(self.0@.subrange(0, 0)) =~= Seq::<u8>::empty());
            assert(out@ =~= spec_render_headers(self.0@.subrange(0, 0)));
        }
        loop
            invariant
                0 <= i <= self.0@.len(),
                out@ == spec_render_headers(self.0@.subrange(0, i as int)),
            ensures
                out@ == spec_render_headers(self.0@),
            decreases self.0@.len() - i,
        {
            if i == self.0.len() {
                proof {
                    assert(self.0@.subrange(0, self.0@.len() as int) =~= self.0@);
                }
                break;
            }
            let mut v = self.0[i].render();
            out.append(&mut v);
            proof {
                assert(self.0@.subrange(0, i + 1) =~= self.0@.subrange(0, i as int).push(
                    self.0@[i as int],
                ));
                lemma_render_headers_push(self.0@.subrange(0, i as int), self.0@[i as int]);
            }
            i = i + 1;
        }
        out
    }

    /// Adds a header at the end.
    pub fn push(&mut self, h: Header)
        ensures
            final (self).0@ == old(self).0@.push(h),
    {
        self.0.push(h);
    }

    /// The number of headers.
    pub fn len(&self) -> (r: usize)
        ensures
            r == self.0@.len(),
    {
        self.0.len()
    }
}

/// The header-block grammar: header lines up to and including the empty line
/// that ends the block. On success: the lines' tokens in order and the
/// position just after the empty line's CRLF.
pub open spec fn spec_tokenize_headers(s: Seq<u8>, from: int) -> Result<
    (Seq<HeaderTokView>, int),
    Seq<u8>,
>
    decreases s.len() - from
        when 0 <= from <= s.len()
        via spec_tokenize_headers_decreases
{
    if from + 2 <= s.len() && s[from] == 13 && s[from + 1] == 10 {
        Ok((Seq::empty(), from + 2))
    } else {
        match spec_tokenize_header(s.subrange(from, s.len() as int)) {
            Ok((name, value, ri)) => {
                match spec_tokenize_headers(s, from + ri) {
                    Ok((rest, e)) => Ok((seq![(name, value)] + rest, e)),
                    Err(m) => Err(m),
                }
            },
            Err(m) => Err(m),
        }
    }
}

#[via_fn]
proof fn spec_tokenize_headers_decreases(s: Seq<u8>, from: int) {
    if !(from + 2 <= s.len() && s[from] == 13 && s[from + 1] == 10) {
        header::lemma_header_tok_bounds(s.subrange(from, s.len() as int));
    }
}

/// The token list of a successful header-block scan (empty on failure).
pub open spec fn spec_headers_rest(s: Seq<u8>, from: int) -> Seq<HeaderTokView> {
    match spec_tokenize_headers(s, from) {
        Ok((rest, _)) => rest,
        Err(_) => Seq::empty(),
    }
}

/// Tokenizes the header block beginning at `from`, consuming the empty line
/// that ends it.
pub fn tokenize_headers(part: &[u8], from: usize) -> (r: Result<
    (Vec<HeaderTokenizer>, usize),
    TokenizerError,
>)
    requires
        from <= part@.len(),
    ensures
        match r {
            Ok((toks, pos)) => from <= pos <= part@.len() && spec_tokenize_headers(
                part@,
                from as int,
            ) == Ok::<(Seq<HeaderTokView>, int), Seq<u8>>((header_toks_view(toks@), pos as int)),
            Err(e) => spec_tokenize_headers(part@, from as int) == Err::<
                (Seq<HeaderTokView>, int),
                Seq<u8>,
            >(e.message@),
        },
{
    let n = part.len();
    let mut toks: Vec<HeaderTokenizer> = Vec::new();
    let mut pos: usize = from;
    proof {
        assert(header_toks_view(toks@) =~= Seq::<HeaderTokView>::empty());
    }
    loop
        invariant_except_break
            match spec_tokenize_headers(part@, pos as int) {
                Ok((rest, e)) => spec_tokenize_headers(part@, from as int) == Ok::<
                    (Seq<HeaderTokView>, int),
                    Seq<u8>,
                >((header_toks_view(toks@) + rest, e)),
                Err(m) => spec_tokenize_headers(part@, from as int) == Err::<
                    (Seq<HeaderTokView>, int),
                    Seq<u8>,
                >(m),
            },
        invariant
            from <= pos <= n,
            n == part@.len(),
        ensures
            from <= pos <= n,
            spec_tokenize_headers(part@, from as int) == Ok::<(Seq<HeaderTokView>, int), Seq<u8>>(
                (header_toks_view(toks@), pos as int),
            ),
        decreases n - pos,
    {
        if pos < n && pos + 1 < n && part[pos] == 13 && part[pos + 1] == 10 {
            proof {
                assert(header_toks_view(toks@) + Seq::<HeaderTokView>::empty()
                    =~= header_toks_view(toks@));
            }
            pos = pos + 2;
            break;
        }
        let tail = slice_range(part, pos, n);
        match HeaderTokenizer::tokenize(tail) {
            Ok((rem, t)) => {
                proof {
                    header::lemma_header_tok_bounds(tail@);
                }
                let consumed = n - pos - rem.len();
                proof {
                    let sub = part@.subrange(pos as int, n as int);
                    let res = spec_tokenize_header(sub);
                    let ri = res->Ok_0.2;
                    assert(header_toks_view(toks@.push(t)) =~= header_toks_view(toks@) + seq![
                        (t.name@, t.value@),
                    ]);
                    if spec_tokenize_headers(part@, pos + ri) is Ok {
                        assert(header_toks_view(toks@) + (seq![(t.name@, t.value@)]
                            + spec_headers_rest(part@, pos + ri)) =~= header_toks_view(
                            toks@.push(t),
                        ) + spec_headers_rest(part@, pos + ri));
                    }
                }
                toks.push(t);
                pos = pos + consumed;
            },
            Err(e) => {
                return Err(e);
            },
        }
    }
    Ok((toks, pos))
}

/// The views of a tokenized header-line list, in order.
pub open spec fn header_toks_view(v: Seq<HeaderTokenizer>) -> Seq<HeaderTokView> {
    v.map_values(|t: HeaderTokenizer| (t.name@, t.value@))
}

/// The position of the next top-level comma at or after `from`: commas
/// inside `<...>` or `"..."` do not count. The length of `s` when none.
pub open spec fn comma_scan(s: Seq<u8>, from: int, in_angle: bool, in_quote: bool) -> int
    recommends
        0 <= from <= s.len(),
    decreases s.len() - from,
{
    if from < 0 || from >= s.len() {
        s.len() as int
    } else if in_quote {
        comma_scan(s, from + 1, in_angle, s[from] != 34)
    } else if s[from] == 34 {
        comma_scan(s, from + 1, in_angle, true)
    } else if s[from] == 60 {
        comma_scan(s, from + 1, true, false)
    } else if s[from] == 62 {
        comma_scan(s, from + 1, false, false)
    } else if s[from] == 44 {
        if in_angle {
            comma_scan(s, from + 1, true, false)
        } else {
            from
        }
    } else {
        comma_scan(s, from + 1, in_angle, false)
    }
}

/// The comma scan stays within bounds.
pub proof fn lemma_comma_scan_bounds(s: Seq<u8>, from: int, in_angle: bool, in_quote: bool)
    requires
        0 <= from <= s.len(),
    ensures
        from <= comma_scan(s, from, in_angle, in_quote) <= s.len(),
    decreases s.len() - from,
{
    if from < s.len() {
        lemma_comma_scan_bounds(s, from + 1, true, false);
        lemma_comma_scan_bounds(s, from + 1, true, true);
        lemma_comma_scan_bounds(s, from + 1, false, false);
        lemma_comma_scan_bounds(s, from + 1, false, true);
    }
}

/// The value split on top-level commas, each piece trimmed of surrounding
/// whitespace.
pub open spec fn split_commas(s: Seq<u8>, from: int) -> Seq<Seq<u8>>
    decreases s.len() - from
        when 0 <= from <= s.len()
        via split_commas_decreases
{
    let c = comma_scan(s, from, false, false);
    if c >= s.len() {
        seq![spec_trimmed(s.subrange(from, s.len() as int))]
    } else {
        seq![spec_trimmed(s.subrange(from, c))] + split_commas(s, c + 1)
    }
}

#[via_fn]
proof fn split_commas_decreases(s: Seq<u8>, from: int) {
    lemma_comma_scan_bounds(s, from, false, false);
}

/// Whether the header named `name` carries comma-separated multi-values that
/// this grammar splits into one header per element: the route set and `Via`.
pub open spec fn splits_on_commas(name: Seq<u8>) -> bool {
    header::names_record_route(name) || header::names_route(name) || header::names_via(name)
}

/// The effective (name, value) pairs of one header line: multi-value headers
/// contribute one pair per top-level comma-separated element, others exactly
/// their line.
pub open spec fn split_views(name: Seq<u8>, value: Seq<u8>) -> Seq<HeaderTokView> {
    if splits_on_commas(name) {
        split_commas(value, 0).map_values(|p: Seq<u8>| (name, p))
    } else {
        seq![(name, value)]
    }
}

/// The effective pairs of a tokenized header-line list, in order.
pub open spec fn flatten_header_views(ts: Seq<HeaderTokView>) -> Seq<HeaderTokView>
    decreases ts.len(),
{
    if ts.len() == 0 {
        Seq::empty()
    } else {
        split_views(ts[0].0, ts[0].1) + flatten_header_views(ts.subrange(1, ts.len() as int))
    }
}

/// Appending one line extends the flattened pairs on the right.
pub proof fn lemma_flatten_push(ts: Seq<HeaderTokView>, t: HeaderTokView)
    ensures
        flatten_header_views(ts.push(t)) == flatten_header_views(ts) + split_views(t.0, t.1),
    decreases ts.len(),
{
    if ts.len() == 0 {
        assert(ts.push(t)[0] == t);
        assert(ts.push(t).subrange(1, 1) =~= Seq::<HeaderTokView>::empty());
        assert(flatten_header_views(Seq::<HeaderTokView>::empty()) =~= Seq::<HeaderTokView>::empty());
        assert(flatten_header_views(ts.push(t)) =~= split_views(t.0, t.1));
        assert(flatten_header_views(ts) + split_views(t.0, t.1) =~= split_views(t.0, t.1));
    } else {
        lemma_flatten_push(ts.subrange(1, ts.len() as int), t);
        assert(ts.push(t).subrange(1, ts.push(t).len() as int) =~= ts.subrange(
            1,
            ts.len() as int,
        ).push(t));
        assert(ts.push(t)[0] == ts[0]);
        assert(split_views(ts[0].0, ts[0].1) + (flatten_header_views(ts.subrange(
            1,
            ts.len() as int,
        )) + split_views(t.0, t.1)) =~= (split_views(ts[0].0, ts[0].1) + flatten_header_views(
            ts.subrange(1, ts.len() as int),
        )) + split_views(t.0, t.1));
    }
}

/// The views of a list of byte-string pieces.
pub open spec fn pieces_view(v: Seq<Vec<u8>>) -> Seq<Seq<u8>> {
    v.map_values(|p: Vec<u8>| p@)
}

/// Splits a header value on top-level commas, trimming each piece.
fn split_value_pieces(value: &[u8]) -> (r: Vec<Vec<u8>>)
    ensures
        pieces_view(r@) == split_commas(value@, 0),
{
    let n = value.len();
    let mut acc: Vec<Vec<u8>> = Vec::new();
    let mut cur: usize = 0;
    proof {
        assert(pieces_view(acc@) =~= Seq::<Seq<u8>>::empty());
    }
    loop
        invariant_except_break
            match () {
                () => split_commas(value@, 0) == pieces_view(acc@) + split_commas(
                    value@,
                    cur as int,
                ),
            },
        invariant
            0 <= cur <= n,
            n == value@.len(),
        ensures
            pieces_view(acc@) == split_commas(value@, 0),
        decreases n - cur,
    {
        let mut i: usize = cur;
        let mut in_angle: bool = false;
        let mut in_quote: bool = false;
        loop
            invariant
                cur <= i <= n,
                n == value@.len(),
                comma_scan(value@, cur as int, false, false) == comma_scan(
                    value@,
                    i as int,
                    in_angle,
                    in_quote,
                ),
            ensures
                cur <= i <= n,
                comma_scan(value@, cur as int, false, false) == i as int,
                i < n ==> value@[i as int] == 44,
            decreases n - i,
        {
            if i >= n {
                break;
            }
            let b = value[i];
            if in_quote {
                in_quote = b != 34;
                i = i + 1;
            } else if b == 34 {
                in_quote = true;
                i = i + 1;
            } else if b == 60 {
                in_angle = true;
                in_quote = false;
                i = i + 1;
            } else if b == 62 {
                in_angle = false;
                in_quote = false;
                i = i + 1;
            } else if b == 44 && !in_angle {
                break;
            } else {
                in_quote = false;
                i = i + 1;
            }
        }
        let piece = trimmed(slice_range(value, cur, i));
        let ghost accv = pieces_view(acc@);
        acc.push(piece);
        proof {
            assert(pieces_view(acc@) =~= accv + seq![spec_trimmed(value@.subrange(
                cur as int,
                i as int,
            ))]);
        }
        if i < n {
            proof {
                assert(accv + (seq![spec_trimmed(value@.subrange(cur as int, i as int))]
                    + split_commas(value@, i + 1)) =~= pieces_view(acc@) + split_commas(
                    value@,
                    i + 1,
                ));
            }
            cur = i + 1;
        } else {
            proof {
                assert(value@.subrange(cur as int, i as int) =~= value@.subrange(
                    cur as int,
                    n as int,
                ));
                assert(accv + seq![spec_trimmed(value@.subrange(cur as int, n as int))]
                    =~= pieces_view(acc@));
            }
            break;
        }
    }
    acc
}

/// Whether a header line's effective pairs and a typed header run match,
/// element for element and in order.
pub open spec fn headers_match_toks(hs: Seq<Header>, ts: Seq<HeaderTokView>) -> bool {
    let flat = flatten_header_views(ts);
    &&& hs.len() == flat.len()
    &&& forall|i: int|
        0 <= i < hs.len() ==> header_matches(#[trigger] hs[i], flat[i].0, flat[i].1)
}

/// The typed headers of a tokenized header-line list: each line dispatched
/// on its name, multi-value lines (`Via` and the route set) split on
/// top-level commas into one header per element, order preserved throughout.
pub fn headers_from_tokens(toks: Vec<HeaderTokenizer>) -> (r: Headers)
    ensures
        headers_match_toks(r.0@, header_toks_view(toks@)),
{
    let ghost ts = header_toks_view(toks@);
    let mut hs: Vec<Header> = Vec::new();
    let n = toks.len();
    let mut i: usize = 0;
    proof {
        assert(ts.subrange(0, 0) =~= Seq::<HeaderTokView>::empty());
        assert(flatten_header_views(ts.subrange(0, 0)) =~= Seq::<HeaderTokView>::empty());
    }
    loop
        invariant
            0 <= i <= n,
            n == toks@.len(),
            ts == header_toks_view(toks@),
            ({
                let flat = flatten_header_views(ts.subrange(0, i as int));
                hs@.len() == flat.len() && forall|j: int|
                    0 <= j < hs@.len() ==> header_matches(#[trigger] hs@[j], flat[j].0, flat[j].1)
            }),
        ensures
            i == n,
            headers_match_toks(hs@, ts),
        decreases n - i,
    {
        if i == n {
            proof {
                assert(ts.subrange(0, n as int) =~= ts);
            }
            break;
        }
        let t = toks[i].clone();
        proof {
            assert(t.name@ == ts[i as int].0 && t.value@ == ts[i as int].1);
            assert(ts.subrange(0, i + 1) =~= ts.subrange(0, i as int).push(ts[i as int]));
            lemma_flatten_push(ts.subrange(0, i as int), ts[i as int]);
        }
        if eq_ignore_case(t.name.as_slice(), "record-route".as_bytes()) || eq_ignore_case(
            t.name.as_slice(),
            "route".as_bytes(),
        ) || eq_ignore_case(t.name.as_slice(), "via".as_bytes()) || eq_ignore_case(
            t.name.as_slice(),
            "v".as_bytes(),
        ) {
            let pieces = split_value_pieces(t.value.as_slice());
            let ghost flat0 = flatten_header_views(ts.subrange(0, i as int));
            let ghost sv = split_views(ts[i as int].0, ts[i as int].1);
            proof {
                assert(sv == split_commas(t.value@, 0).map_values(
                    |p: Seq<u8>| (ts[i as int].0, p),
                ));
                assert(sv.len() == pieces_view(pieces@).len());
            }
            let m = pieces.len();
            let mut j: usize = 0;
            loop
                invariant
                    0 <= j <= m,
                    m == pieces@.len(),
                    sv.len() == m,
                    forall|k: int|
                        0 <= k < m ==> (#[trigger] sv[k]) == (ts[i as int].0, pieces@[k]@),
                    hs@.len() == flat0.len() + j,
                    forall|k: int|
                        0 <= k < flat0.len() ==> header_matches(
                            #[trigger] hs@[k],
                            flat0[k].0,
                            flat0[k].1,
                        ),
                    forall|k: int|
                        0 <= k < j ==> header_matches(
                            #[trigger] hs@[flat0.len() + k],
                            sv[k].0,
                            sv[k].1,
                        ),
                    ts[i as int].0 == t.name@,
                ensures
                    j == m,
                    hs@.len() == flat0.len() + m,
                    forall|k: int|
                        0 <= k < flat0.len() ==> header_matches(
                            #[trigger] hs@[k],
                            flat0[k].0,
                            flat0[k].1,
                        ),
                    forall|k: int|
                        0 <= k < m ==> header_matches(
                            #[trigger] hs@[flat0.len() + k],
                            sv[k].0,
                            sv[k].1,
                        ),
                decreases m - j,
            {
                if j == m {
                    break;
                }
                let name_copy = vstd::slice::slice_to_vec(t.name.as_slice());
                let piece = vstd::slice::slice_to_vec(pieces[j].as_slice());
                let h = Header::from_parts(name_copy, piece);
                hs.push(h);
                j = j + 1;
            }
            proof {
                let flat1 = flatten_header_views(ts.subrange(0, i + 1));
                assert(flat1 == flat0 + sv);
                assert forall|k: int| 0 <= k < flat1.len() implies header_matches(
                    #[trigger] hs@[k],
                    flat1[k].0,
                    flat1[k].1,
                ) by {
                    if k < flat0.len() {
                        assert(flat1[k] == flat0[k]);
                    } else {
                        assert(flat1[k] == sv[k - flat0.len()]);
                        assert(header_matches(
                            hs@[flat0.len() + (k - flat0.len())],
                            sv[k - flat0.len()].0,
                            sv[k - flat0.len()].1,
                        ));
                    }
                }
            }
        } else {
            proof {
                reveal(crate::headers::header::header_matches);
            }
            let h = Header::from_parts(t.name, t.value);
            hs.push(h);
            proof {
                assert(split_views(ts[i as int].0, ts[i as int].1) =~= seq![ts[i as int]]) by {
                    assert(!splits_on_commas(ts[i as int].0));
                }
                let flat1 = flatten_header_views(ts.subrange(0, i + 1));
                assert(flat1 == flatten_header_views(ts.subrange(0, i as int)) + seq![
                    ts[i as int],
                ]);
            }
        }
        i = i + 1;
    }
    Headers(hs)
}

/// The (canonical name, verbatim value) pair of each header, in order.
pub open spec fn header_views_of(hs: Seq<Header>) -> Seq<HeaderTokView> {
    hs.map_values(|h: Header| (header::spec_header_name(h), header::spec_header_value(h)))
}

/// A header fit for a block round trip: well formed and, when its name is a
/// multi-value name (`Via` or the route set), free of top-level commas and
/// surrounding whitespace, so that re-parsing does not split it further.
pub open spec fn wf_header_line(h: Header) -> bool {
    &&& header::wf_header(h)
    &&& (splits_on_commas(header::spec_header_name(h)) ==> comma_scan(
        header::spec_header_value(h),
        0,
        false,
        false,
    ) == header::spec_header_value(h).len() && spec_trimmed(header::spec_header_value(h))
        == header::spec_header_value(h))
}

/// A comma-free, trimmed value splits into exactly itself.
proof fn lemma_split_singleton(v: Seq<u8>)
    requires
        comma_scan(v, 0, false, false) == v.len(),
        spec_trimmed(v) == v,
    ensures
        split_commas(v, 0) == seq![v],
{
    assert(v.subrange(0, v.len() as int) =~= v);
}

/// The flattened views of headers that are each fit for a round trip are the
/// headers' own views: nothing is split further.
proof fn lemma_flatten_id(hs: Seq<Header>)
    requires
        forall|i: int| 0 <= i < hs.len() ==> wf_header_line(#[trigger] hs[i]),
    ensures
        flatten_header_views(header_views_of(hs)) == header_views_of(hs),
    decreases hs.len(),
{
    let vs = header_views_of(hs);
    if hs.len() == 0 {
        assert(flatten_header_views(vs) =~= vs);
    } else {
        let tail = hs.subrange(1, hs.len() as int);
        lemma_flatten_id(tail);
        assert(header_views_of(tail) =~= vs.subrange(1, vs.len() as int));
        if splits_on_commas(vs[0].0) {
            lemma_split_singleton(vs[0].1);
            assert(split_views(vs[0].0, vs[0].1) =~= seq![vs[0]]);
        } else {
            assert(split_views(vs[0].0, vs[0].1) =~= seq![vs[0]]);
        }
        assert(flatten_header_views(vs) == seq![vs[0]] + flatten_header_views(
            vs.subrange(1, vs.len() as int),
        ));
        assert(seq![vs[0]] + vs.subrange(1, vs.len() as int) =~= vs);
    }
}

/// Every list of round-trip-fit headers matches its own views.
pub proof fn lemma_headers_rematch_pub(hs: Seq<Header>)
    requires
        forall|i: int| 0 <= i < hs.len() ==> wf_header_line(#[trigger] hs[i]),
    ensures
        headers_match_toks(hs, header_views_of(hs)),
{
    lemma_flatten_id(hs);
    let flat = flatten_header_views(header_views_of(hs));
    assert forall|i: int| 0 <= i < hs.len() implies header::header_matches(
        #[trigger] hs[i],
        flat[i].0,
        flat[i].1,
    ) by {
        header::lemma_header_rematch(hs[i]);
    }
}

/// Law (round trip, block level): a block of headers fit for a round trip,
/// rendered line by line and closed by the empty line, tokenizes back to
/// exactly the headers' canonical names and verbatim values, ending just
/// after the empty line; the same headers match that token list.
#[verifier::rlimit(100)]
pub proof fn lemma_headers_round_trip(s: Seq<u8>, from: int, hs: Seq<Header>, rest: Seq<u8>)
    requires
        0 <= from <= s.len(),
        s.subrange(from, s.len() as int) == spec_render_headers(hs) + seq![13u8, 10u8] + rest,
        forall|i: int| 0 <= i < hs.len() ==> wf_header_line(#[trigger] hs[i]),
    ensures
        spec_tokenize_headers(s, from) == Ok::<(Seq<HeaderTokView>, int), Seq<u8>>(
            (header_views_of(hs), from + spec_render_headers(hs).len() + 2),
        ),
        headers_match_toks(hs, header_views_of(hs)),
    decreases hs.len(),
{
    let tail_s = s.subrange(from, s.len() as int);
    lemma_headers_rematch_pub(hs);
    if hs.len() == 0 {
        assert(spec_render_headers(hs) =~= Seq::<u8>::empty());
        assert(tail_s =~= seq![13u8, 10u8] + rest);
        assert(s[from] == 13 && s[from + 1] == 10);
        assert(header_views_of(hs) =~= Seq::<HeaderTokView>::empty());
    } else {
        let h0 = hs[0];
        let tail = hs.subrange(1, hs.len() as int);
        let line = header::spec_render_header(h0);
        let rest1 = spec_render_headers(tail) + seq![13u8, 10u8] + rest;
        assert(spec_render_headers(hs) == line + spec_render_headers(tail));
        assert(tail_s =~= line + rest1);
        // What follows this line starts with a token byte or the final CR.
        header::lemma_header_name_facts_pub(h0);
        if tail.len() > 0 {
            header::lemma_header_name_facts_pub(tail[0]);
            assert(spec_render_headers(tail)[0] == header::spec_header_name(tail[0])[0]);
            assert(!crate::textlex::in_class(crate::textlex::ByteClass::Token, 32u8));
            assert(!crate::textlex::in_class(crate::textlex::ByteClass::Token, 9u8));
            assert(!is_ws(rest1[0]));
        } else {
            assert(spec_render_headers(tail) =~= Seq::<u8>::empty());
            assert(rest1[0] == 13);
        }
        header::lemma_header_round_trip_at(h0, rest1, s, from);
        // The blank-line guard does not fire: a name starts with a token byte.
        assert(s[from] == header::spec_header_name(h0)[0]);
        assert(!crate::textlex::in_class(crate::textlex::ByteClass::Token, 13u8));
        // Recurse after this line.
        let from2 = from + line.len();
        assert(from2 <= s.len());
        assert(s.subrange(from2, s.len() as int) =~= rest1) by {
            assert forall|i: int|
                0 <= i < rest1.len() implies s.subrange(from2, s.len() as int)[i] == #[trigger] rest1[i] by {
                assert(s.subrange(from2, s.len() as int)[i] == s[from2 + i]);
                assert(s[from2 + i] == tail_s[line.len() + i]);
                assert(tail_s[line.len() + i] == rest1[i]);
            }
        }
        lemma_headers_round_trip(s, from2, tail, rest);
        assert(header_views_of(hs) =~= seq![
            (header::spec_header_name(h0), header::spec_header_value(h0)),
        ] + header_views_of(tail));
    }
}

/// Lists whose elements render equal, render equal as header blocks.
proof fn lemma_render_headers_pointwise(a: Seq<Header>, b: Seq<Header>)
    requires
        a.len() == b.len(),
        forall|i: int|
            0 <= i < a.len() ==> spec_render_header(#[trigger] a[i]) == spec_render_header(b[i]),
    ensures
        spec_render_headers(a) == spec_render_headers(b),
    decreases a.len(),
{
    if a.len() > 0 {
        let at = a.subrange(1, a.len() as int);
        let bt = b.subrange(1, b.len() as int);
        assert(forall|i: int|
            0 <= i < at.len() ==> spec_render_header(#[trigger] at[i]) == spec_render_header(
                bt[i],
            )) by {
            assert(forall|i: int|
                0 <= i < at.len() ==> #[trigger] at[i] == a[i + 1] && bt[i] == b[i + 1]);
        }
        lemma_render_headers_pointwise(at, bt);
    }
}

/// Law (render determinism): two header runs converted from the same header
/// lines render identically — the conversion leaves the lines' rendering
/// fully determined.
pub proof fn lemma_headers_render_determined(
    hs1: Seq<Header>,
    hs2: Seq<Header>,
    ts: Seq<HeaderTokView>,
)
    requires
        headers_match_toks(hs1, ts),
        headers_match_toks(hs2, ts),
    ensures
        spec_render_headers(hs1) == spec_render_headers(hs2),
{
    let flat = flatten_header_views(ts);
    assert forall|i: int|
        0 <= i < hs1.len() implies spec_render_header(#[trigger] hs1[i]) == spec_render_header(
        hs2[i],
    ) by {
        header::lemma_header_render_determined(hs1[i], hs2[i], flat[i].0, flat[i].1);
    }
    lemma_render_headers_pointwise(hs1, hs2);
}

} // verus!
