//! Path templates: their grammar, how an inbound path is normalized, and how a
//! normalized path is matched against a compiled template.
//!
//! A template is split on `/`. A piece `:name` captures one path segment of one
//! or more word characters (ASCII letters, digits, underscore); the piece `*`
//! matches the rest of the path and must come last; any other piece matches
//! itself literally. A trailing slash on the path is optional.
use vstd::prelude::*;
use crate::error::RegistrationError;
use crate::text::{chars_of, same_chars, string_of};

verus! {

/// One compiled piece of a template.
#[derive(Debug, Clone)]
pub enum Segment {
    Literal(String),
    Param(String),
    Wildcard,
}

pub open spec fn is_word(c: char) -> bool {
    ('a' <= c && c <= 'z') || ('A' <= c && c <= 'Z') || ('0' <= c && c <= '9') || c == '_'
}

pub fn is_word_char(c: char) -> (r: bool)
    ensures
        r == is_word(c),
{
    ('a' <= c && c <= 'z') || ('A' <= c && c <= 'Z') || ('0' <= c && c <= '9') || c == '_'
}

/// The pieces of `s` between slashes, in order; always at least one.
pub open spec fn split_slash(s: Seq<char>) -> Seq<Seq<char>>
    decreases s.len(),
{
    if s.len() == 0 {
        seq![Seq::<char>::empty()]
    } else {
        let p = split_slash(s.drop_last());
        if s.last() == '/' {
            p.push(Seq::<char>::empty())
        } else {
            p.update(p.len() - 1, p.last().push(s.last()))
        }
    }
}

pub proof fn lemma_split_nonempty(s: Seq<char>)
    ensures
        split_slash(s).len() >= 1,
    decreases s.len(),
{
    if s.len() > 0 {
        lemma_split_nonempty(s.drop_last());
    }
}

pub open spec fn views(v: Seq<Vec<char>>) -> Seq<Seq<char>> {
    v.map_values(|x: Vec<char>| x@)
}

pub open spec fn star() -> Seq<char> {
    seq!['*']
}

pub open spec fn all_word(x: Seq<char>, from: int) -> bool {
    forall|k: int| from <= k < x.len() ==> is_word(#[trigger] x[k])
}

pub open spec fn is_digit(c: char) -> bool {
    '0' <= c && c <= '9'
}

/// A piece that names a parameter.
pub open spec fn is_param_piece(x: Seq<char>) -> bool {
    x.len() >= 1 && x[0] == ':'
}

/// A piece that starts with `:` needs a non-empty name of word characters
/// that does not start with a digit.
pub open spec fn piece_valid(x: Seq<char>) -> bool {
    x.len() == 0 || x[0] != ':' || (x.len() >= 2 && all_word(x, 1) && !is_digit(x[1]))
}

/// `seg` is what the piece `x` compiles to.
pub open spec fn compiles_to(x: Seq<char>, seg: Segment) -> bool {
    match seg {
        Segment::Wildcard => x == star(),
        Segment::Param(n) => x.len() >= 1 && x[0] == ':' && n@ == x.drop_first(),
        Segment::Literal(l) => l@ == x && x != star() && (x.len() == 0 || x[0] != ':'),
    }
}

/// A well-formed template: it starts with `/`, every named piece has a valid
/// name, no name occurs twice, and a wildcard is the last piece.
pub open spec fn valid_template(t: Seq<char>) -> bool {
    let sp = split_slash(t);
    &&& t.len() >= 1
    &&& t[0] == '/'
    &&& forall|i: int|
        1 <= i < sp.len() ==> piece_valid(#[trigger] sp[i]) && (sp[i] == star() ==> i == sp.len()
            - 1)
    &&& forall|i: int, j: int|
        1 <= i < j < sp.len() && is_param_piece(#[trigger] sp[i]) ==> sp[i] != #[trigger] sp[j]
}

/// `segs` is the compiled form of template `t`: one segment per piece after
/// the leading slash.
pub open spec fn compiled(t: Seq<char>, segs: Seq<Segment>) -> bool {
    let sp = split_slash(t);
    &&& segs.len() + 1 == sp.len()
    &&& forall|i: int| 0 <= i < segs.len() ==> compiles_to(sp[i + 1], #[trigger] segs[i])
}

pub(crate) fn split_on_slash(cs: &Vec<char>) -> (r: Vec<Vec<char>>)
    ensures
        views(r@) == split_slash(cs@),
{
    let mut pieces: Vec<Vec<char>> = Vec::new();
    let mut cur: Vec<char> = Vec::new();
    let mut i: usize = 0;
    proof {
        assert(cs@.subrange(0, 0) =~= Seq::<char>::empty());
        assert(views(pieces@).push(cur@) =~= seq![Seq::<char>::empty()]);
    }
    while i < cs.len()
        invariant
            i <= cs@.len(),
            views(pieces@).push(cur@) == split_slash(cs@.subrange(0, i as int)),
        decreases cs@.len() - i,
    {
        let c = cs[i];
        proof {
            let s = cs@.subrange(0, i as int + 1);
            assert(s.drop_last() =~= cs@.subrange(0, i as int));
            assert(s.last() == c);
        }
        if c == '/' {
            let done = cur;
            let ghost before = views(pieces@);
            pieces.push(done);
            cur = Vec::new();
            proof {
                assert(views(pieces@) =~= before.push(done@));
            }
        } else {
            let ghost before = views(pieces@).push(cur@);
            cur.push(c);
            proof {
                assert(views(pieces@).push(cur@) =~= before.update(before.len() - 1, before.last().push(c)));
            }
        }
        i = i + 1;
    }
    proof {
        assert(cs@.subrange(0, cs@.len() as int) =~= cs@);
    }
    let ghost before = views(pieces@).push(cur@);
    pieces.push(cur);
    proof {
        assert(views(pieces@) =~= before);
    }
    pieces
}

fn classify_piece(x: &Vec<char>) -> (r: Option<Segment>)
    ensures
        r.is_some() == piece_valid(x@),
        r matches Some(seg) ==> compiles_to(x@, seg),
{
    if x.len() == 1 && x[0] == '*' {
        assert(x@ =~= star());
        return Some(Segment::Wildcard);
    }
    if x.len() == 0 || x[0] != ':' {
        let l = string_of(x, 0, x.len());
        proof {
            assert(x@.subrange(0, x@.len() as int) =~= x@);
            if x@ == star() {
                assert(x@.len() == 1 && x@[0] == '*');
            }
        }
        return Some(Segment::Literal(l));
    }
    assert(x@[0] == ':');
    if x.len() < 2 || ('0' <= x[1] && x[1] <= '9') {
        return None;
    }
    let mut k: usize = 1;
    while k < x.len()
        invariant
            1 <= k <= x@.len(),
            x@[0] == ':',
            x@.len() >= 2,
            !is_digit(x@[1]),
            forall|j: int| 1 <= j < k ==> is_word(#[trigger] x@[j]),
        decreases x@.len() - k,
    {
        if !is_word_char(x[k]) {
            assert(!all_word(x@, 1));
            return None;
        }
        k = k + 1;
    }
    let n = string_of(x, 1, x.len());
    assert(n@ =~= x@.drop_first());
    Some(Segment::Param(n))
}

/// Compiles a path template into its segments.
pub fn compile_template(t: &str) -> (r: Result<Vec<Segment>, RegistrationError>)
    ensures
        r.is_ok() == valid_template(t@),
        r matches Ok(segs) ==> compiled(t@, segs@),
        r matches Err(e) ==> e == RegistrationError::InvalidTemplate,
{
    let cs = chars_of(t);
    if cs.len() == 0 || cs[0] != '/' {
        return Err(RegistrationError::InvalidTemplate);
    }
    let pieces = split_on_slash(&cs);
    let ghost sp = split_slash(t@);
    proof {
        lemma_split_nonempty(t@);
    }
    let mut segs: Vec<Segment> = Vec::new();
    let mut i: usize = 1;
    while i < pieces.len()
        invariant
            views(pieces@) == sp,
            sp == split_slash(t@),
            sp.len() >= 1,
            1 <= i <= sp.len(),
            segs@.len() + 1 == i,
            forall|j: int|
                1 <= j < i ==> piece_valid(#[trigger] sp[j]) && (sp[j] == star() ==> j == sp.len()
                    - 1),
            forall|j: int| 0 <= j < segs@.len() ==> compiles_to(sp[j + 1], #[trigger] segs@[j]),
            forall|a: int, b: int|
                1 <= a < b < i && is_param_piece(#[trigger] sp[a]) ==> sp[a] != #[trigger] sp[b],
        decreases sp.len() - i,
    {
        assert(pieces@[i as int]@ == sp[i as int]);
        if pieces[i].len() >= 1 && pieces[i][0] == ':' {
            assert(is_param_piece(sp[i as int]));
            let mut j: usize = 1;
            while j < i
                invariant
                    views(pieces@) == sp,
                    sp == split_slash(t@),
                    1 <= j <= i < sp.len(),
                    is_param_piece(sp[i as int]),
                    forall|a: int| 1 <= a < j ==> #[trigger] sp[a] != sp[i as int],
                decreases i - j,
            {
                assert(pieces@[j as int]@ == sp[j as int]);
                if same_chars(&pieces[j], &pieces[i]) {
                    assert(is_param_piece(sp[j as int]));
                    return Err(RegistrationError::InvalidTemplate);
                }
                j = j + 1;
            }
        }
        proof {
            if !is_param_piece(sp[i as int]) {
                assert forall|a: int| 1 <= a < i && is_param_piece(#[trigger] sp[a]) implies sp[a]
                    != sp[i as int] by {
                    if sp[a] == sp[i as int] {
                        assert(is_param_piece(sp[i as int]));
                    }
                }
            }
        }
        match classify_piece(&pieces[i]) {
            None => {
                return Err(RegistrationError::InvalidTemplate);
            },
            Some(seg) => {
                if matches!(seg, Segment::Wildcard) && i + 1 != pieces.len() {
                    return Err(RegistrationError::InvalidTemplate);
                }
                proof {
                    if sp[i as int] == star() {
                        assert(sp[i as int].len() == 1 && sp[i as int][0] == '*');
                    }
                }
                segs.push(seg);
            },
        }
        i = i + 1;
    }
    Ok(segs)
}

/// The length of the run of word characters in `p` that starts at `i`.
pub open spec fn word_run(p: Seq<char>, i: int) -> int
    decreases p.len() - i,
{
    if 0 <= i < p.len() && is_word(p[i]) {
        1 + word_run(p, i + 1)
    } else {
        0
    }
}

proof fn lemma_word_run(p: Seq<char>, a: int, j: int)
    requires
        0 <= a <= j <= p.len(),
        forall|k: int| a <= k < j ==> is_word(#[trigger] p[k]),
        j == p.len() || !is_word(p[j]),
    ensures
        word_run(p, a) == j - a,
    decreases j - a,
{
    if a < j {
        lemma_word_run(p, a + 1, j);
    }
}

/// Whether `p`, from position `pos` on, matches the segments `segs` from index
/// `si` on: each segment is introduced by a slash, and after the last one only
/// an optional trailing slash may remain.
pub open spec fn match_from(segs: Seq<Segment>, si: int, p: Seq<char>, pos: int) -> bool
    decreases segs.len() - si,
{
    if si < 0 || pos < 0 {
        false
    } else if si >= segs.len() {
        pos == p.len() || (pos + 1 == p.len() && p[pos] == '/')
    } else if pos >= p.len() || p[pos] != '/' {
        false
    } else {
        match segs[si] {
            Segment::Literal(l) => pos + 1 + l@.len() <= p.len() && p.subrange(
                pos + 1,
                pos + 1 + l@.len(),
            ) == l@ && match_from(segs, si + 1, p, pos + 1 + l@.len()),
            Segment::Param(_) => word_run(p, pos + 1) > 0 && match_from(
                segs,
                si + 1,
                p,
                pos + 1 + word_run(p, pos + 1),
            ),
            Segment::Wildcard => true,
        }
    }
}

/// The parameters that matching `p` from `pos` against `segs` from `si` binds:
/// each named segment's name with the path text it covered, in template order.
pub open spec fn bindings_from(segs: Seq<Segment>, si: int, p: Seq<char>, pos: int) -> Seq<
    (Seq<char>, Seq<char>),
>
    decreases segs.len() - si,
{
    if si < 0 || pos < 0 || si >= segs.len() || pos >= p.len() {
        seq![]
    } else {
        match segs[si] {
            Segment::Literal(l) => bindings_from(segs, si + 1, p, pos + 1 + l@.len()),
            Segment::Param(n) => seq![(n@, p.subrange(pos + 1, pos + 1 + word_run(p, pos + 1)))]
                + bindings_from(segs, si + 1, p, pos + 1 + word_run(p, pos + 1)),
            Segment::Wildcard => seq![],
        }
    }
}

/// The text a segment stands for in a concrete path: a literal itself, any
/// other segment the value given for it.
pub open spec fn piece_text(seg: Segment, v: Seq<char>) -> Seq<char> {
    match seg {
        Segment::Literal(l) => l@,
        _ => v,
    }
}

/// The path written from `segs` (from index `si` on) with `vals[i]` in the
/// place of each named or wildcard segment `i`.
pub open spec fn fill_from(segs: Seq<Segment>, si: int, vals: Seq<Seq<char>>) -> Seq<char>
    decreases segs.len() - si,
{
    if si < 0 || si >= segs.len() {
        seq![]
    } else {
        seq!['/'] + piece_text(segs[si], vals[si]) + fill_from(segs, si + 1, vals)
    }
}

/// Each named segment's name with the value written in its place, in order.
pub open spec fn named_from(segs: Seq<Segment>, si: int, vals: Seq<Seq<char>>) -> Seq<
    (Seq<char>, Seq<char>),
>
    decreases segs.len() - si,
{
    if si < 0 || si >= segs.len() {
        seq![]
    } else {
        match segs[si] {
            Segment::Literal(_) => named_from(segs, si + 1, vals),
            Segment::Param(n) => seq![(n@, vals[si])] + named_from(segs, si + 1, vals),
            Segment::Wildcard => seq![],
        }
    }
}

pub open spec fn fits_params(segs: Seq<Segment>, vals: Seq<Seq<char>>) -> bool {
    &&& vals.len() == segs.len()
    &&& forall|i: int|
        0 <= i < segs.len() && (#[trigger] segs[i] is Param) ==> vals[i].len() > 0 && all_word(
            vals[i],
            0,
        )
}

proof fn lemma_fill_matches(
    segs: Seq<Segment>,
    vals: Seq<Seq<char>>,
    si: int,
    p: Seq<char>,
    pos: int,
)
    requires
        fits_params(segs, vals),
        forall|i: int| 0 <= i < segs.len() && (#[trigger] segs[i] is Wildcard) ==> i == segs.len() - 1,
        0 <= si <= segs.len(),
        0 <= pos <= p.len(),
        p.subrange(pos, p.len() as int) == fill_from(segs, si, vals),
    ensures
        match_from(segs, si, p, pos),
        bindings_from(segs, si, p, pos) == named_from(segs, si, vals),
    decreases segs.len() - si,
{
    if si < segs.len() {
        let f = fill_from(segs, si, vals);
        let t = piece_text(segs[si], vals[si]);
        let tl = t.len() as int;
        let rest = fill_from(segs, si + 1, vals);
        assert(f[0] == '/');
        assert(p[pos] == p.subrange(pos, p.len() as int)[0]);
        let next = pos + 1 + t.len();
        assert(p.subrange(pos + 1, next) =~= f.subrange(1, 1 + tl));
        assert(f.subrange(1, 1 + tl) =~= t);
        assert(p.subrange(next, p.len() as int) =~= f.subrange(1 + tl, f.len() as int));
        assert(f.subrange(1 + tl, f.len() as int) =~= rest);
        match segs[si] {
            Segment::Literal(l) => {
                lemma_fill_matches(segs, vals, si + 1, p, next);
            },
            Segment::Param(n) => {
                assert forall|k: int| pos + 1 <= k < next implies is_word(#[trigger] p[k]) by {
                    assert(p[k] == p.subrange(pos + 1, next)[k - pos - 1]);
                }
                if next < p.len() {
                    assert(rest.len() > 0);
                    assert(p[next] == p.subrange(next, p.len() as int)[0]);
                    assert(rest[0] == '/');
                }
                lemma_word_run(p, pos + 1, next);
                lemma_fill_matches(segs, vals, si + 1, p, next);
            },
            Segment::Wildcard => {},
        }
    } else {
        assert(p.subrange(pos, p.len() as int).len() == 0);
    }
}

/// For every valid template and every path written from it with a non-empty
/// word in the place of each named segment: the path matches the template, and
/// the bound parameters are exactly each name with the word written in its place.
pub proof fn lemma_match_binds_written_values(
    t: Seq<char>,
    segs: Seq<Segment>,
    vals: Seq<Seq<char>>,
)
    requires
        valid_template(t),
        compiled(t, segs),
        fits_params(segs, vals),
    ensures
        match_from(segs, 0, fill_from(segs, 0, vals), 0),
        bindings_from(segs, 0, fill_from(segs, 0, vals), 0) == named_from(segs, 0, vals),
{
    let sp = split_slash(t);
    assert forall|i: int| 0 <= i < segs.len() && (#[trigger] segs[i] is Wildcard) implies i
        == segs.len() - 1 by {
        assert(compiles_to(sp[i + 1], segs[i]));
        assert(piece_valid(sp[i + 1]));
    }
    let p = fill_from(segs, 0, vals);
    assert(p.subrange(0, p.len() as int) =~= p);
    lemma_fill_matches(segs, vals, 0, p, 0);
}

pub open spec fn pairs_view(v: Seq<(String, String)>) -> Seq<(Seq<char>, Seq<char>)> {
    v.map_values(|e: (String, String)| (e.0@, e.1@))
}

fn literal_at(p: &Vec<char>, pos: usize, l: &Vec<char>) -> (r: bool)
    requires
        pos <= p@.len(),
    ensures
        r == (pos + l@.len() <= p@.len() && p@.subrange(pos as int, pos + l@.len()) == l@),
{
    if l.len() > p.len() - pos {
        return false;
    }
    let mut k: usize = 0;
    while k < l.len()
        invariant
            pos + l@.len() <= p@.len(),
            p@.len() <= usize::MAX,
            k <= l@.len(),
            forall|j: int| 0 <= j < k ==> p@[pos + j] == l@[j],
        decreases l@.len() - k,
    {
        if p[pos + k] != l[k] {
            assert(p@.subrange(pos as int, pos + l@.len())[k as int] != l@[k as int]);
            return false;
        }
        k = k + 1;
    }
    assert(p@.subrange(pos as int, pos + l@.len()) =~= l@);
    true
}

/// Matches the characters of a normalized path against compiled segments and,
/// on a match, returns the bound parameters.
pub fn match_segments(segs: &Vec<Segment>, p: &Vec<char>) -> (r: Option<Vec<(String, String)>>)
    ensures
        r.is_some() == match_from(segs@, 0, p@, 0),
        r matches Some(v) ==> pairs_view(v@) == bindings_from(segs@, 0, p@, 0),
{
    let mut out: Vec<(String, String)> = Vec::new();
    let mut si: usize = 0;
    let mut pos: usize = 0;
    assert(pairs_view(out@) + bindings_from(segs@, 0, p@, 0) =~= bindings_from(segs@, 0, p@, 0));
    while si < segs.len()
        invariant
            si <= segs@.len(),
            pos <= p@.len(),
            match_from(segs@, 0, p@, 0) == match_from(segs@, si as int, p@, pos as int),
            bindings_from(segs@, 0, p@, 0) == pairs_view(out@) + bindings_from(
                segs@,
                si as int,
                p@,
                pos as int,
            ),
        decreases segs@.len() - si,
    {
        if pos >= p.len() || p[pos] != '/' {
            return None;
        }
        match &segs[si] {
            Segment::Literal(l) => {
                let lc = chars_of(l.as_str());
                if !literal_at(p, pos + 1, &lc) {
                    return None;
                }
                assert(pairs_view(out@) + bindings_from(segs@, si as int, p@, pos as int)
                    == pairs_view(out@) + bindings_from(segs@, si + 1, p@, pos + 1 + l@.len()));
                pos = pos + 1 + lc.len();
            },
            Segment::Param(n) => {
                let a = pos + 1;
                let mut j = a;
                while j < p.len() && is_word_char(p[j])
                    invariant
                        a <= j <= p@.len(),
                        forall|k: int| a <= k < j ==> is_word(#[trigger] p@[k]),
                    decreases p@.len() - j,
                {
                    j = j + 1;
                }
                proof {
                    lemma_word_run(p@, a as int, j as int);
                }
                if j == a {
                    return None;
                }
                let name = n.clone();
                let value = string_of(p, a, j);
                let ghost before = pairs_view(out@);
                out.push((name, value));
                proof {
                    assert(pairs_view(out@) =~= before + seq![(n@, p@.subrange(a as int, j as int))]);
                    assert(pairs_view(out@) + bindings_from(segs@, si + 1, p@, j as int) =~= before
                        + bindings_from(segs@, si as int, p@, pos as int));
                }
                pos = j;
            },
            Segment::Wildcard => {
                assert(bindings_from(segs@, si as int, p@, pos as int) =~= Seq::empty());
                assert(pairs_view(out@) + Seq::<(Seq<char>, Seq<char>)>::empty() =~= pairs_view(out@));
                return Some(out);
            },
        }
        si = si + 1;
    }
    if pos == p.len() || (pos + 1 == p.len() && p[pos] == '/') {
        assert(pairs_view(out@) + Seq::<(Seq<char>, Seq<char>)>::empty() =~= pairs_view(out@));
        Some(out)
    } else {
        None
    }
}

/// `p` without its trailing slashes.
pub open spec fn trim_slashes(p: Seq<char>) -> Seq<char>
    decreases p.len(),
{
    if p.len() > 0 && p.last() == '/' {
        trim_slashes(p.drop_last())
    } else {
        p
    }
}

pub open spec fn v1_prefix() -> Seq<char> {
    seq!['/', 'a', 'p', 'i', '/', 'v', '1', '/']
}

pub open spec fn api_prefix() -> Seq<char> {
    seq!['/', 'a', 'p', 'i', '/']
}

pub open spec fn versioned(t: Seq<char>) -> bool {
    t.len() >= 8 && t.subrange(0, 8) == v1_prefix()
}

/// `t` with every leading `/api/v1/` alias folded onto `/api/`, repeatedly,
/// until it no longer begins with the alias.
pub open spec fn fold_alias(t: Seq<char>) -> Seq<char>
    decreases t.len(),
{
    if versioned(t) {
        fold_alias(api_prefix() + t.subrange(8, t.len() as int))
    } else {
        t
    }
}

/// The path that routing matches: trailing slashes dropped, then the
/// `/api/v1/` alias folded onto `/api/`.
pub open spec fn normalized(p: Seq<char>) -> Seq<char> {
    fold_alias(trim_slashes(p))
}

proof fn lemma_trim_shape(p: Seq<char>)
    ensures
        trim_slashes(p).len() <= p.len(),
        trim_slashes(p) == p.subrange(0, trim_slashes(p).len() as int),
        trim_slashes(p).len() == 0 || trim_slashes(p).last() != '/',
        trim_slashes(p).len() == 0 ==> forall|i: int| 0 <= i < p.len() ==> p[i] == '/',
    decreases p.len(),
{
    if p.len() > 0 && p.last() == '/' {
        lemma_trim_shape(p.drop_last());
        assert(p.drop_last().subrange(0, trim_slashes(p).len() as int) =~= p.subrange(
            0,
            trim_slashes(p).len() as int,
        ));
        if trim_slashes(p).len() == 0 {
            assert forall|i: int| 0 <= i < p.len() implies p[i] == '/' by {
                if i < p.len() - 1 {
                    assert(p.drop_last()[i] == p[i]);
                }
            }
        }
    } else {
        assert(p.subrange(0, p.len() as int) =~= p);
    }
}

proof fn lemma_trim_after_prefix(a: Seq<char>, x: Seq<char>)
    requires
        trim_slashes(x).len() > 0,
    ensures
        trim_slashes(a + x) == a + trim_slashes(x),
    decreases x.len(),
{
    if x.len() > 0 && x.last() == '/' {
        assert((a + x).drop_last() =~= a + x.drop_last());
        lemma_trim_after_prefix(a, x.drop_last());
    } else {
        assert((a + x).len() > 0);
        assert((a + x).last() == x.last());
    }
}

proof fn lemma_fold_step(t: Seq<char>)
    requires
        versioned(t),
    ensures
        (api_prefix() + t.subrange(8, t.len() as int)).len() + 3 == t.len(),
        fold_alias(t) == fold_alias(api_prefix() + t.subrange(8, t.len() as int)),
{
}

proof fn lemma_fold_shape(t: Seq<char>)
    requires
        t.len() == 0 || t.last() != '/',
    ensures
        !versioned(fold_alias(t)),
        fold_alias(t).len() == 0 || fold_alias(t).last() != '/',
    decreases t.len(),
{
    if versioned(t) {
        if t.len() == 8 {
            assert(t.last() == t.subrange(0, 8)[7]);
        }
        let s = api_prefix() + t.subrange(8, t.len() as int);
        assert(s.last() == t.last());
        lemma_fold_shape(s);
    }
}

/// Normalizing twice gives the same path as normalizing once.
pub proof fn lemma_normalize_idempotent(p: Seq<char>)
    ensures
        normalized(normalized(p)) == normalized(p),
{
    lemma_trim_shape(p);
    let q = normalized(p);
    lemma_fold_shape(trim_slashes(p));
    assert(trim_slashes(q) == q);
}

/// A path under the `/api/v1/` alias normalizes as the same path under `/api/`,
/// for every rest of the path that holds a character other than `/`.
pub proof fn lemma_version_alias(x: Seq<char>)
    requires
        exists|i: int| 0 <= i < x.len() && x[i] != '/',
    ensures
        normalized(v1_prefix() + x) == normalized(api_prefix() + x),
{
    lemma_trim_shape(x);
    assert(trim_slashes(x).len() > 0);
    lemma_trim_after_prefix(v1_prefix(), x);
    lemma_trim_after_prefix(api_prefix(), x);
    let tx = trim_slashes(x);
    let a = v1_prefix() + tx;
    assert(a.subrange(0, 8) =~= v1_prefix());
    assert(a.subrange(8, a.len() as int) =~= tx);
    lemma_fold_step(a);
}

/// Normalizes an inbound path: drops trailing slashes, then rewrites a
/// leading `/api/v1/` to `/api/` for as long as one is there.
pub fn normalize_path(path: &str) -> (r: String)
    ensures
        r@ == normalized(path@),
{
    let cs = chars_of(path);
    let mut end: usize = cs.len();
    assert(cs@.subrange(0, end as int) =~= cs@);
    while end > 0 && cs[end - 1] == '/'
        invariant
            end <= cs@.len(),
            trim_slashes(cs@) == trim_slashes(cs@.subrange(0, end as int)),
        decreases end,
    {
        assert(cs@.subrange(0, end as int).drop_last() =~= cs@.subrange(0, end - 1));
        end = end - 1;
    }
    let ghost t = cs@.subrange(0, end as int);
    assert(trim_slashes(t) == t);
    let v1: Vec<char> = vec!['/', 'a', 'p', 'i', '/', 'v', '1', '/'];
    assert(v1@ =~= v1_prefix());
    if end >= 8 && literal_at(&cs, 0, &v1) {
        assert(t.subrange(0, 8) =~= cs@.subrange(0, 8));
        assert(t.subrange(8, t.len() as int) =~= cs@.subrange(8, end as int));
        let mut off: usize = 8;
        while end - off >= 3 && cs[off] == 'v' && cs[off + 1] == '1' && cs[off + 2] == '/'
            invariant
                8 <= off <= end <= cs@.len(),
                fold_alias(t) == fold_alias(api_prefix() + cs@.subrange(off as int, end as int)),
            decreases end - off,
        {
            let ghost s = api_prefix() + cs@.subrange(off as int, end as int);
            assert(s.subrange(0, 8) =~= v1_prefix());
            assert(s.subrange(8, s.len() as int) =~= cs@.subrange(off + 3, end as int));
            off = off + 3;
        }
        proof {
            let s = api_prefix() + cs@.subrange(off as int, end as int);
            if versioned(s) {
                assert(s.subrange(0, 8)[5] == 'v');
                assert(s.subrange(0, 8)[6] == '1');
                assert(s.subrange(0, 8)[7] == '/');
                assert(s[5] == cs@[off as int]);
                assert(false);
            }
        }
        let mut out: Vec<char> = vec!['/', 'a', 'p', 'i', '/'];
        let mut i: usize = off;
        assert(cs@.subrange(off as int, off as int) =~= Seq::<char>::empty());
        assert(out@ =~= api_prefix() + cs@.subrange(off as int, off as int));
        while i < end
            invariant
                off <= i <= end <= cs@.len(),
                out@ == api_prefix() + cs@.subrange(off as int, i as int),
            decreases end - i,
        {
            out.push(cs[i]);
            assert(api_prefix() + cs@.subrange(off as int, i + 1) =~= (api_prefix()
                + cs@.subrange(off as int, i as int)).push(cs@[i as int]));
            i = i + 1;
        }
        assert(out@.subrange(0, out@.len() as int) =~= out@);
        string_of(&out, 0, out.len())
    } else {
        proof {
            if versioned(t) {
                assert(cs@.subrange(0, 8) =~= t.subrange(0, 8));
            }
        }
        string_of(&cs, 0, end)
    }
}

/// The characters that have a meaning in a regex.
pub open spec fn is_meta(c: char) -> bool {
    c == '\\' || c == '.' || c == '+' || c == '*' || c == '?' || c == '(' || c == ')' || c == '|'
        || c == '[' || c == ']' || c == '{' || c == '}' || c == '^' || c == '$' || c == '#' || c
        == '&' || c == '-' || c == '~'
}

/// `s` with a backslash before each regex meta character.
pub open spec fn regex_escaped(s: Seq<char>) -> Seq<char>
    decreases s.len(),
{
    if s.len() == 0 {
        seq![]
    } else {
        regex_escaped(s.drop_last()) + if is_meta(s.last()) {
            seq!['\\', s.last()]
        } else {
            seq![s.last()]
        }
    }
}

/// Relies on `regex::escape`: each character of the text in order, with a
/// backslash before each one that `regex_syntax::is_meta_character` lists.
#[verifier::external_body]
fn escape_literal(s: &str) -> (r: String)
    ensures
        r@ == regex_escaped(s@),
{
    regex::escape(s)
}

/// The regex text of one segment.
pub open spec fn seg_pattern(seg: Segment) -> Seq<char> {
    match seg {
        Segment::Literal(l) => regex_escaped(l@),
        Segment::Param(n) => seq!['(', '?', 'P', '<'] + n@ + seq!['>', '\\', 'w', '+', ')'],
        Segment::Wildcard => seq!['.', '*'],
    }
}

pub open spec fn segments_pattern(segs: Seq<Segment>) -> Seq<char>
    decreases segs.len(),
{
    if segs.len() == 0 {
        seq![]
    } else {
        segments_pattern(segs.drop_last()) + seq!['/'] + seg_pattern(segs.last())
    }
}

/// The anchored regex text of a compiled template, trailing slash optional.
pub open spec fn regex_of(segs: Seq<Segment>) -> Seq<char> {
    seq!['^'] + segments_pattern(segs) + seq!['/', '?', '$']
}

fn push_all(out: &mut Vec<char>, s: &Vec<char>)
    ensures
        final(out)@ == old(out)@ + s@,
{
    let mut i: usize = 0;
    while i < s.len()
        invariant
            i <= s@.len(),
            out@ == old(out)@ + s@.subrange(0, i as int),
        decreases s@.len() - i,
    {
        out.push(s[i]);
        assert(old(out)@ + s@.subrange(0, i + 1) =~= (old(out)@ + s@.subrange(0, i as int)).push(
            s@[i as int],
        ));
        i = i + 1;
    }
    assert(s@.subrange(0, s@.len() as int) =~= s@);
}

/// The regex text that describes what the segments match.
pub fn regex_source(segs: &Vec<Segment>) -> (r: String)
    ensures
        r@ == regex_of(segs@),
{
    let mut out: Vec<char> = vec!['^'];
    let mut i: usize = 0;
    while i < segs.len()
        invariant
            i <= segs@.len(),
            out@ == seq!['^'] + segments_pattern(segs@.subrange(0, i as int)),
        decreases segs@.len() - i,
    {
        let ghost before = out@;
        out.push('/');
        match &segs[i] {
            Segment::Literal(l) => {
                let e = escape_literal(l.as_str());
                let ec = chars_of(e.as_str());
                push_all(&mut out, &ec);
            },
            Segment::Param(n) => {
                let open: Vec<char> = vec!['(', '?', 'P', '<'];
                let close: Vec<char> = vec!['>', '\\', 'w', '+', ')'];
                let nc = chars_of(n.as_str());
                push_all(&mut out, &open);
                push_all(&mut out, &nc);
                push_all(&mut out, &close);
            },
            Segment::Wildcard => {
                out.push('.');
                out.push('*');
            },
        }
        proof {
            let sub = segs@.subrange(0, i + 1);
            assert(sub.drop_last() =~= segs@.subrange(0, i as int));
            assert(out@ =~= before + seq!['/'] + seg_pattern(segs@[i as int]));
        }
        i = i + 1;
    }
    out.push('/');
    out.push('?');
    out.push('$');
    assert(segs@.subrange(0, segs@.len() as int) =~= segs@);
    assert(out@.subrange(0, out@.len() as int) =~= out@);
    string_of(&out, 0, out.len())
}

/// The anchored regex text of a path template.
pub fn path_to_regex(path: &str) -> (r: Result<String, RegistrationError>)
    ensures
        r.is_ok() == valid_template(path@),
        r matches Ok(s) ==> exists|segs: Seq<Segment>| compiled(path@, segs) && s@ == regex_of(segs),
        r matches Err(e) ==> e == RegistrationError::InvalidTemplate,
{
    let segs = compile_template(path)?;
    Ok(regex_source(&segs))
}

} // verus!
