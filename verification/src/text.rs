//! Pure text utilities for the session manager: line trimming, the
//! binding-vs-expression classification, substring search, preamble
//! selection and the literal-splicing composition of REPL programs.

use vstd::prelude::*;
use vstd::string::StrSliceExecFns;
use vstd::string::StringExecFns;

verus! {

/// Whitespace for line handling: exactly the characters with the Unicode
/// `White_Space` property, as `char::is_whitespace` decides it.
pub open spec fn is_ws(c: char) -> bool {
    ||| (0x09 <= (c as u32) && (c as u32) <= 0x0d)
    ||| (c as u32) == 0x20
    ||| (c as u32) == 0x85
    ||| (c as u32) == 0xa0
    ||| (c as u32) == 0x1680
    ||| (0x2000 <= (c as u32) && (c as u32) <= 0x200a)
    ||| (c as u32) == 0x2028
    ||| (c as u32) == 0x2029
    ||| (c as u32) == 0x202f
    ||| (c as u32) == 0x205f
    ||| (c as u32) == 0x3000
}

/// Index of the first character at or after `i` that is not whitespace.
pub open spec fn spec_skip_ws(s: Seq<char>, i: int) -> int
    decreases s.len() - i,
{
    if i < 0 || i >= s.len() {
        i
    } else if is_ws(s[i]) {
        spec_skip_ws(s, i + 1)
    } else {
        i
    }
}

/// Index of the first whitespace character at or after `i`.
pub open spec fn spec_skip_token(s: Seq<char>, i: int) -> int
    decreases s.len() - i,
{
    if i < 0 || i >= s.len() {
        i
    } else if !is_ws(s[i]) {
        spec_skip_token(s, i + 1)
    } else {
        i
    }
}

/// Index just past the last non-whitespace character before `i`.
pub open spec fn spec_rskip_ws(s: Seq<char>, i: int) -> int
    decreases i,
{
    if i <= 0 {
        0
    } else if 0 < i <= s.len() && is_ws(s[i - 1]) {
        spec_rskip_ws(s, i - 1)
    } else {
        i
    }
}

/// `s` with leading and trailing whitespace removed.
pub open spec fn spec_trim(s: Seq<char>) -> Seq<char> {
    let a = spec_skip_ws(s, 0);
    let b = spec_rskip_ws(s, s.len() as int);
    if a <= b {
        s.subrange(a, b)
    } else {
        Seq::empty()
    }
}

proof fn lemma_skip_ws_range(s: Seq<char>, i: int)
    requires
        0 <= i <= s.len(),
    ensures
        i <= spec_skip_ws(s, i) <= s.len(),
    decreases s.len() - i,
{
    if i < s.len() && is_ws(s[i]) {
        lemma_skip_ws_range(s, i + 1);
    }
}

proof fn lemma_skip_token_range(s: Seq<char>, i: int)
    requires
        0 <= i <= s.len(),
    ensures
        i <= spec_skip_token(s, i) <= s.len(),
    decreases s.len() - i,
{
    if i < s.len() && !is_ws(s[i]) {
        lemma_skip_token_range(s, i + 1);
    }
}

fn is_ws_char(c: char) -> (r: bool)
    ensures
        r == is_ws(c),
{
    let u = c as u32;
    (0x09 <= u && u <= 0x0d) || u == 0x20 || u == 0x85 || u == 0xa0 || u == 0x1680 || (0x2000 <= u
        && u <= 0x200a) || u == 0x2028 || u == 0x2029 || u == 0x202f || u == 0x205f || u == 0x3000
}

fn skip_ws_exec(s: &str, from: usize, n: usize) -> (r: usize)
    requires
        n == s@.len(),
        from <= n,
    ensures
        r == spec_skip_ws(s@, from as int),
        from <= r <= n,
{
    let mut i: usize = from;
    while i < n
        invariant
            from <= i <= n,
            n == s@.len(),
            spec_skip_ws(s@, from as int) == spec_skip_ws(s@, i as int),
        decreases n - i,
    {
        let c = s.get_char(i);
        if !is_ws_char(c) {
            proof {
                lemma_skip_ws_range(s@, from as int);
            }
            return i;
        }
        i = i + 1;
    }
    proof {
        lemma_skip_ws_range(s@, from as int);
    }
    i
}

fn skip_token_exec(s: &str, from: usize, n: usize) -> (r: usize)
    requires
        n == s@.len(),
        from <= n,
    ensures
        r == spec_skip_token(s@, from as int),
        from <= r <= n,
{
    let mut i: usize = from;
    while i < n
        invariant
            from <= i <= n,
            n == s@.len(),
            spec_skip_token(s@, from as int) == spec_skip_token(s@, i as int),
        decreases n - i,
    {
        let c = s.get_char(i);
        if is_ws_char(c) {
            proof {
                lemma_skip_token_range(s@, from as int);
            }
            return i;
        }
        i = i + 1;
    }
    proof {
        lemma_skip_token_range(s@, from as int);
    }
    i
}

/// `s` with surrounding whitespace removed.
pub fn trim_str(s: &str) -> (r: String)
    ensures
        r@ == spec_trim(s@),
{
    let n = s.unicode_len();
    let a = skip_ws_exec(s, 0, n);
    let mut b: usize = n;
    while b > 0
        invariant
            b <= n,
            n == s@.len(),
            spec_rskip_ws(s@, n as int) == spec_rskip_ws(s@, b as int),
        ensures
            b == spec_rskip_ws(s@, n as int),
        decreases b,
    {
        let c = s.get_char(b - 1);
        if !is_ws_char(c) {
            proof {
                assert(spec_rskip_ws(s@, b as int) == b);
            }
            break;
        }
        b = b - 1;
    }
    if a <= b {
        s.substring_char(a, b).to_owned()
    } else {
        String::new()
    }
}

/// The line is a binding by the token rule: splitting on whitespace yields
/// `=` as exactly the second token.
pub open spec fn spec_second_token_is_eq(s: Seq<char>) -> bool {
    let a = spec_skip_ws(s, 0);
    let b = spec_skip_token(s, a);
    let c = spec_skip_ws(s, b);
    b > a && c < s.len() && s[c] == '=' && (c + 1 == s.len() || is_ws(s[c + 1]))
}

/// The line is a binding: either its second whitespace token is exactly
/// `=`, or its first `=` stands at index 1 (a one-character name written
/// without spaces).
pub open spec fn spec_is_binding(s: Seq<char>) -> bool {
    spec_second_token_is_eq(s) || (s.len() >= 2 && s[1] == '=' && s[0] != '=')
}

/// The bound name of a binding line. When the token rule applies it is the
/// first token; otherwise it is the single character before the `=`.
pub open spec fn spec_binding_name(s: Seq<char>) -> Seq<char> {
    if spec_second_token_is_eq(s) {
        s.subrange(spec_skip_ws(s, 0), spec_skip_token(s, spec_skip_ws(s, 0)))
    } else {
        s.subrange(0, 1)
    }
}

/// The expression text of a binding line: everything after the binding `=`.
pub open spec fn spec_binding_expr(s: Seq<char>) -> Seq<char> {
    if spec_second_token_is_eq(s) {
        s.subrange(spec_skip_ws(s, spec_skip_token(s, spec_skip_ws(s, 0))) + 1, s.len() as int)
    } else {
        s.subrange(2, s.len() as int)
    }
}

/// Classification of a REPL line.
pub enum LineClass {
    /// `name = expression`.
    Binding(String, String),
    /// A bare expression.
    Bare,
}

/// Classifies a line as a binding or a bare expression, per the dual rule:
/// the second whitespace token is exactly `=`, or the first `=` stands at
/// index 1. When the token rule applies it wins.
pub fn classify_line(s: &str) -> (r: LineClass)
    ensures
        spec_is_binding(s@) ==> (r matches LineClass::Binding(nm, ex) && nm@ == spec_binding_name(
            s@,
        ) && ex@ == spec_binding_expr(s@)),
        !spec_is_binding(s@) ==> r == LineClass::Bare,
{
    let n = s.unicode_len();
    let a = skip_ws_exec(s, 0, n);
    let b = skip_token_exec(s, a, n);
    let c = skip_ws_exec(s, b, n);
    let cond_a = b > a && c < n && s.get_char(c) == '=' && (c + 1 == n || is_ws_char(
        s.get_char(c + 1),
    ));
    if cond_a {
        let nm = s.substring_char(a, b).to_owned();
        let ex = s.substring_char(c + 1, n).to_owned();
        LineClass::Binding(nm, ex)
    } else if n >= 2 && s.get_char(1) == '=' && s.get_char(0) != '=' {
        let nm = s.substring_char(0, 1).to_owned();
        let ex = s.substring_char(2, n).to_owned();
        LineClass::Binding(nm, ex)
    } else {
        LineClass::Bare
    }
}

/// A lowercase letter.
pub open spec fn is_lower(c: char) -> bool {
    97 <= (c as u32) && (c as u32) <= 122
}

/// A character allowed inside a binding name.
pub open spec fn is_name_char(c: char) -> bool {
    is_lower(c) || (48 <= (c as u32) && (c as u32) <= 57) || c == '_'
}

/// A valid binding name: nonempty, starts with a lowercase letter, and
/// continues with lowercase letters, digits or underscores.
pub open spec fn spec_valid_name(nm: Seq<char>) -> bool {
    nm.len() > 0 && is_lower(nm[0]) && (forall|i: int| 0 <= i < nm.len() ==> is_name_char(nm[i]))
}

/// Checks a binding name against the lowercase-identifier pattern.
pub fn valid_name(nm: &str) -> (r: bool)
    ensures
        r == spec_valid_name(nm@),
{
    let n = nm.unicode_len();
    if n == 0 {
        return false;
    }
    let first = nm.get_char(0);
    let fu = first as u32;
    if !(97 <= fu && fu <= 122) {
        return false;
    }
    let mut i: usize = 0;
    while i < n
        invariant
            i <= n,
            n == nm@.len(),
            forall|j: int| 0 <= j < i ==> is_name_char(nm@[j]),
        decreases n - i,
    {
        let c = nm.get_char(i);
        let u = c as u32;
        if !((97 <= u && u <= 122) || (48 <= u && u <= 57) || c == '_') {
            return false;
        }
        i = i + 1;
    }
    true
}

/// The needle `nd` occurs in `h` starting at position `i`.
pub open spec fn matches_at(h: Seq<char>, nd: Seq<char>, i: int) -> bool {
    0 <= i && i + nd.len() <= h.len() && (forall|k: int| 0 <= k < nd.len() ==> h[i + k] == nd[k])
}

/// The needle `nd` occurs somewhere in `h`.
pub open spec fn contains_sub(h: Seq<char>, nd: Seq<char>) -> bool {
    exists|i: int| matches_at(h, nd, i)
}

fn match_at_exec(h: &str, nd: &str, i: usize, hn: usize, nn: usize) -> (r: bool)
    requires
        hn == h@.len(),
        nn == nd@.len(),
        i + nn <= hn,
    ensures
        r == matches_at(h@, nd@, i as int),
{
    let mut k: usize = 0;
    while k < nn
        invariant
            k <= nn,
            hn == h@.len(),
            nn == nd@.len(),
            i + nn <= hn,
            forall|m: int| 0 <= m < k ==> h@[i + m] == nd@[m],
        decreases nn - k,
    {
        if h.get_char(i + k) != nd.get_char(k) {
            return false;
        }
        k = k + 1;
    }
    true
}

/// Finds the first occurrence of `nd` in `h`.
pub fn find_sub(h: &str, nd: &str) -> (r: Option<usize>)
    ensures
        match r {
            Some(i) => matches_at(h@, nd@, i as int) && (forall|j: int|
                0 <= j < i ==> !matches_at(h@, nd@, j)),
            None => !contains_sub(h@, nd@),
        },
{
    let hn = h.unicode_len();
    let nn = nd.unicode_len();
    if nn > hn {
        return None;
    }
    let mut i: usize = 0;
    #[verifier::loop_isolation(false)]
    while i <= hn - nn
        invariant
            i <= hn - nn + 1,
            forall|j: int| 0 <= j < i ==> !matches_at(h@, nd@, j),
        decreases hn - nn + 1 - i,
    {
        if match_at_exec(h, nd, i, hn, nn) {
            return Some(i);
        }
        i = i + 1;
    }
    proof {
        assert forall|j: int| #[trigger] matches_at(h@, nd@, j) implies false by {
            assert(0 <= j && j + nd@.len() <= h@.len());
            assert(j < i);
        }
    }
    None
}

/// `p` is the preamble of `src`: the part before the first `---` divider
/// when one occurs; the whole text when a definition, import or export
/// keyword occurs; else empty.
pub open spec fn spec_is_preamble(src: Seq<char>, p: Seq<char>) -> bool {
    if contains_sub(src, "---"@) {
        exists|i: int|
            matches_at(src, "---"@, i) && (forall|j: int| 0 <= j < i ==> !matches_at(src, "---"@, j))
                && p == src.subrange(0, i)
    } else if contains_sub(src, "def"@) || contains_sub(src, "provide"@) || contains_sub(
        src,
        "require"@,
    ) {
        p == src
    } else {
        p.len() == 0
    }
}

/// Selects the preamble of a source text.
pub fn preamble_of(src: &str) -> (r: String)
    ensures
        spec_is_preamble(src@, r@),
{
    match find_sub(src, "---") {
        Some(i) => src.substring_char(0, i).to_owned(),
        None => {
            let has_def = find_sub(src, "def").is_some();
            let has_provide = find_sub(src, "provide").is_some();
            let has_require = find_sub(src, "require").is_some();
            if has_def || has_provide || has_require {
                src.to_owned()
            } else {
                String::new()
            }
        },
    }
}

/// The views of a list of name/text pairs.
pub open spec fn views_of(bs: Seq<(String, String)>) -> Seq<(Seq<char>, Seq<char>)> {
    bs.map_values(|p: (String, String)| (p.0@, p.1@))
}

/// One step of the literal-splicing wrap: `let <name> = (<text>) in (<body>)`.
pub open spec fn spec_wrap_one(name: Seq<char>, text: Seq<char>, body: Seq<char>) -> Seq<char> {
    "let "@ + name + " = ("@ + text + ") in ("@ + body + ")"@
}

/// The body wrapped by every binding in turn, the first binding innermost.
pub open spec fn spec_wrap_bindings(bs: Seq<(Seq<char>, Seq<char>)>, body: Seq<char>) -> Seq<char>
    decreases bs.len(),
{
    if bs.len() == 0 {
        body
    } else {
        spec_wrap_bindings(bs.drop_first(), spec_wrap_one(bs[0].0, bs[0].1, body))
    }
}

/// Wraps `body` in a `let` splice for each cached binding.
pub fn wrap_bindings(bs: &Vec<(String, String)>, body: String) -> (r: String)
    ensures
        r@ == spec_wrap_bindings(views_of(bs@), body@),
{
    let mut cur = body;
    let ghost body0 = cur@;
    proof {
        assert(views_of(bs@).skip(0) =~= views_of(bs@));
    }
    let mut k: usize = 0;
    #[verifier::loop_isolation(false)]
    while k < bs.len()
        invariant
            k <= bs@.len(),
            spec_wrap_bindings(views_of(bs@), body0) == spec_wrap_bindings(
                views_of(bs@).skip(k as int),
                cur@,
            ),
        decreases bs@.len() - k,
    {
        let pair = &bs[k];
        let mut nw = String::from_str("let ");
        nw.append(pair.0.as_str());
        nw.append(" = (");
        nw.append(pair.1.as_str());
        nw.append(") in (");
        nw.append(cur.as_str());
        nw.append(")");
        proof {
            assert(nw@ =~= spec_wrap_one(bs@[k as int].0@, bs@[k as int].1@, cur@));
            assert(views_of(bs@).skip(k as int).drop_first() =~= views_of(bs@).skip(k + 1));
            assert(views_of(bs@).skip(k as int)[0] == (bs@[k as int].0@, bs@[k as int].1@));
        }
        cur = nw;
        k = k + 1;
    }
    proof {
        assert(views_of(bs@).skip(bs@.len() as int) =~= Seq::<(Seq<char>, Seq<char>)>::empty());
    }
    cur
}

/// The composed program: preamble, divider, wrapped body, trailing blank
/// line.
pub open spec fn spec_compose(pre: Seq<char>, wrapped: Seq<char>) -> Seq<char> {
    pre + "\n---\n"@ + wrapped + "\n\n"@
}

/// Composes a complete program from a preamble, the cached bindings and a
/// body expression.
pub fn compose_program(pre: &str, bindings: &Vec<(String, String)>, body: &str) -> (r: String)
    ensures
        r@ == spec_compose(pre@, spec_wrap_bindings(views_of(bindings@), body@)),
{
    let wrapped = wrap_bindings(bindings, body.to_owned());
    let mut s = pre.to_owned();
    s.append("\n---\n");
    s.append(wrapped.as_str());
    s.append("\n\n");
    s
}

} // verus!
