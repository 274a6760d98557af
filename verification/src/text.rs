use vstd::prelude::*;

verus! {

// ---------------------------------------------------------------------------
// Characters and searching
// ---------------------------------------------------------------------------

/// The whitespace characters recognized by the blank-line cleanup.
pub open spec fn ws_char(c: char) -> bool {
    c == ' ' || c == '\t' || c == '\n' || c == '\r' || c == '\x0b' || c == '\x0c'
}

/// Every character of `s` in `[from, to)` is whitespace.
pub open spec fn all_ws_range(s: Seq<char>, from: int, to: int) -> bool {
    forall|j: int| from <= j < to ==> ws_char(s[j])
}

/// The index of the first occurrence of `c` in `s` at or after `i`,
/// or `s.len()` if there is none.
pub open spec fn find_from(s: Seq<char>, i: int, c: char) -> int
    decreases s.len() - i when 0 <= i
{
    if i >= s.len() {
        s.len() as int
    } else if s[i] == c {
        i
    } else {
        find_from(s, i + 1, c)
    }
}

/// What `find_from` returns: the first occurrence at or after `i`.
pub proof fn lemma_find_from(s: Seq<char>, i: int, c: char)
    requires
        0 <= i <= s.len(),
    ensures
        i <= find_from(s, i, c) <= s.len(),
        forall|j: int| i <= j < find_from(s, i, c) ==> s[j] != c,
        find_from(s, i, c) < s.len() ==> s[find_from(s, i, c)] == c,
    decreases s.len() - i,
{
    if i < s.len() && s[i] != c {
        lemma_find_from(s, i + 1, c);
    }
}

/// Finds the first occurrence of `c` in `v` at or after `start`.
pub fn find_char(v: &Vec<char>, start: usize, c: char) -> (r: usize)
    requires
        start <= v@.len(),
    ensures
        r == find_from(v@, start as int, c),
        start <= r <= v@.len(),
{
    proof {
        lemma_find_from(v@, start as int, c);
    }
    let mut i: usize = start;
    while i < v.len()
        invariant
            start <= i <= v@.len(),
            find_from(v@, start as int, c) == find_from(v@, i as int, c),
        decreases v@.len() - i,
    {
        if v[i] == c {
            return i;
        }
        i += 1;
    }
    i
}

/// Checks a character against the recognized whitespace set.
pub fn is_ws(c: char) -> (b: bool)
    ensures
        b == ws_char(c),
{
    c == ' ' || c == '\t' || c == '\n' || c == '\r' || c == '\x0b' || c == '\x0c'
}

// ---------------------------------------------------------------------------
// Blank-line cleanup
// ---------------------------------------------------------------------------

/// The text from line start `i` on, with every line whose characters are
/// all whitespace removed, together with its terminating newline if it has
/// one.  A final line without a terminating newline is dropped or kept by
/// the same rule.
pub open spec fn strip_blank_from(s: Seq<char>, i: int) -> Seq<char>
    decreases s.len() - i when 0 <= i
{
    if i >= s.len() {
        Seq::empty()
    } else {
        let e = find_from(s, i, '\n');
        let next = if e + 1 < i + 1 { i + 1 } else { e + 1 };
        if e >= s.len() {
            if all_ws_range(s, i, s.len() as int) {
                Seq::empty()
            } else {
                s.subrange(i, s.len() as int)
            }
        } else if all_ws_range(s, i, e) {
            strip_blank_from(s, next)
        } else {
            s.subrange(i, e + 1) + strip_blank_from(s, next)
        }
    }
}

/// The whole text with its whitespace-only lines collapsed away.
pub open spec fn strip_blank_lines(s: Seq<char>) -> Seq<char> {
    strip_blank_from(s, 0)
}

/// Removes every line consisting only of whitespace, terminated or not.
pub fn strip_blank_lines_vec(v: &Vec<char>) -> (out: Vec<char>)
    ensures
        out@ == strip_blank_lines(v@),
{
    let mut out: Vec<char> = Vec::new();
    proof {
        assert(out@ + strip_blank_from(v@, 0) =~= strip_blank_lines(v@));
    }
    let mut i: usize = 0;
    while i < v.len()
        invariant
            0 <= i <= v@.len(),
            out@ + strip_blank_from(v@, i as int) == strip_blank_lines(v@),
        decreases v@.len() - i,
    {
        let ghost prev = out@;
        let e = find_char(v, i, '\n');
        proof {
            lemma_find_from(v@, i as int, '\n');
        }
        // the line [i, e): check whether it is all whitespace
        let mut ws_only = true;
        let mut j: usize = i;
        while j < e
            invariant
                i <= j <= e <= v@.len(),
                ws_only == all_ws_range(v@, i as int, j as int),
            decreases e - j,
        {
            if !is_ws(v[j]) {
                ws_only = false;
            }
            proof {
                if ws_only {
                    assert(all_ws_range(v@, i as int, j + 1 as int));
                } else {
                    if all_ws_range(v@, i as int, j + 1 as int) {
                        assert(ws_char(v@[j as int]));
                        assert(all_ws_range(v@, i as int, j as int));
                    }
                }
            }
            j += 1;
        }
        if e == v.len() {
            // final line without a newline: kept whole or dropped whole
            if !ws_only {
                let ghost out0 = out@;
                let mut k: usize = i;
                while k < e
                    invariant
                        i <= k <= e <= v@.len(),
                        out@ == out0 + v@.subrange(i as int, k as int),
                    decreases e - k,
                {
                    out.push(v[k]);
                    proof {
                        assert(out@ =~= out0 + v@.subrange(i as int, k + 1 as int));
                    }
                    k += 1;
                }
                proof {
                    assert(strip_blank_from(v@, i as int) == v@.subrange(
                        i as int,
                        v@.len() as int,
                    ));
                    assert(out@ == out0 + strip_blank_from(v@, i as int));
                }
            } else {
                proof {
                    assert(strip_blank_from(v@, i as int) =~= Seq::<char>::empty());
                    assert(out@ =~= out@ + strip_blank_from(v@, i as int));
                }
            }
            return out;
        }
        if !ws_only {
            // keep the line, including its newline
            let ghost out0 = out@;
            let mut k: usize = i;
            while k < e
                invariant
                    i <= k <= e,
                    e < v@.len(),
                    out@ == out0 + v@.subrange(i as int, k as int),
                decreases e - k,
            {
                out.push(v[k]);
                proof {
                    assert(out@ =~= out0 + v@.subrange(i as int, k + 1 as int));
                }
                k += 1;
            }
            out.push(v[e]);
            proof {
                assert(out@ =~= out0 + v@.subrange(i as int, e + 1));
            }
            proof {
                assert(out@ == out0 + v@.subrange(i as int, e + 1));
                assert(strip_blank_from(v@, i as int) == v@.subrange(i as int, e + 1)
                    + strip_blank_from(v@, e + 1));
                assert(out@ + strip_blank_from(v@, e + 1) =~= prev + strip_blank_from(
                    v@,
                    i as int,
                ));
            }
        } else {
            proof {
                assert(strip_blank_from(v@, i as int) == strip_blank_from(v@, e + 1));
            }
        }
        i = e + 1;
    }
    proof {
        assert(strip_blank_from(v@, i as int) =~= Seq::<char>::empty());
        assert(out@ =~= out@ + strip_blank_from(v@, i as int));
    }
    out
}

// ---------------------------------------------------------------------------
// Silent-embed link rewriting
// ---------------------------------------------------------------------------

/// The characters `[a, b)` of `s` start with `http://` or `https://`.
pub open spec fn scheme_at(s: Seq<char>, a: int, b: int) -> bool {
    (b - a >= 7 && s[a] == 'h' && s[a + 1] == 't' && s[a + 2] == 't' && s[a + 3] == 'p'
        && s[a + 4] == ':' && s[a + 5] == '/' && s[a + 6] == '/') || (b - a >= 8 && s[a] == 'h'
        && s[a + 1] == 't' && s[a + 2] == 't' && s[a + 3] == 'p' && s[a + 4] == 's' && s[a + 5]
        == ':' && s[a + 6] == '/' && s[a + 7] == '/')
}

/// Looks for an inline link `[text](url)` starting exactly at `i`: a `[`,
/// then the text up to the first `]` (nonempty, so no `]` inside it), then
/// `(`, then a URL up to the first `)` (so no `)` inside it) whose scheme is
/// `http` or `https`.  Returns the index of the `]` and of the `)`.
pub open spec fn match_at(s: Seq<char>, i: int) -> Option<(int, int)> {
    if !(0 <= i < s.len() && s[i] == '[') {
        Option::None
    } else {
        let tend = find_from(s, i + 1, ']');
        if tend >= s.len() || tend <= i + 1 {
            Option::None
        } else if tend + 1 >= s.len() || s[tend + 1] != '(' {
            Option::None
        } else {
            let uend = find_from(s, tend + 2, ')');
            if uend >= s.len() || !scheme_at(s, tend + 2, uend) {
                Option::None
            } else {
                Option::Some((tend, uend))
            }
        }
    }
}

/// The text from `i` on with every inline `http(s)` link rewritten into the
/// silent-embed form `[text](<url>)`, scanning left to right over
/// non-overlapping matches.
pub open spec fn rewrite_from(s: Seq<char>, i: int) -> Seq<char>
    decreases s.len() - i when 0 <= i
{
    if i >= s.len() {
        Seq::empty()
    } else {
        match match_at(s, i) {
            Option::Some(m) => {
                let next = if m.1 + 1 < i + 1 { i + 1 } else { m.1 + 1 };
                seq!['['] + s.subrange(i + 1, m.0) + seq![']', '(', '<'] + s.subrange(
                    m.0 + 2,
                    m.1,
                ) + seq!['>', ')'] + rewrite_from(s, next)
            },
            Option::None => seq![s[i]] + rewrite_from(s, i + 1),
        }
    }
}

/// The whole text with every inline `http(s)` link silent-embedded.
pub open spec fn rewrite_links(s: Seq<char>) -> Seq<char> {
    rewrite_from(s, 0)
}

/// Checks for `http://` or `https://` at `[a, b)`.
fn scheme_check(v: &Vec<char>, a: usize, b: usize) -> (r: bool)
    requires
        a <= b <= v@.len(),
    ensures
        r == scheme_at(v@, a as int, b as int),
{
    let d = b - a;
    (d >= 7 && v[a] == 'h' && v[a + 1] == 't' && v[a + 2] == 't' && v[a + 3] == 'p' && v[a + 4]
        == ':' && v[a + 5] == '/' && v[a + 6] == '/') || (d >= 8 && v[a] == 'h' && v[a + 1] == 't'
        && v[a + 2] == 't' && v[a + 3] == 'p' && v[a + 4] == 's' && v[a + 5] == ':' && v[a + 6]
        == '/' && v[a + 7] == '/')
}

/// Looks for an inline link starting exactly at `i`, as `match_at` describes.
fn try_match(v: &Vec<char>, i: usize) -> (r: Option<(usize, usize)>)
    requires
        i < v@.len(),
    ensures
        match r {
            Option::Some(p) => match_at(v@, i as int) == Option::Some((p.0 as int, p.1 as int))
                && i + 1 < p.0 && p.0 + 2 <= p.1 && p.1 < v@.len(),
            Option::None => match_at(v@, i as int) is None,
        },
{
    let n = v.len();
    if v[i] != '[' {
        return Option::None;
    }
    let tend = find_char(v, i + 1, ']');
    if tend == n || tend <= i + 1 {
        return Option::None;
    }
    if tend + 1 == n || v[tend + 1] != '(' {
        return Option::None;
    }
    let uend = find_char(v, tend + 2, ')');
    if uend == n {
        return Option::None;
    }
    if !scheme_check(v, tend + 2, uend) {
        return Option::None;
    }
    proof {
        assert(match_at(v@, i as int) == Option::Some((tend as int, uend as int)));
    }
    Option::Some((tend, uend))
}

/// Appends the characters `[from, to)` of `v` to `out`.
fn push_range(out: &mut Vec<char>, v: &Vec<char>, from: usize, to: usize)
    requires
        from <= to <= v@.len(),
    ensures
        final(out)@ == old(out)@ + v@.subrange(from as int, to as int),
{
    let ghost out0 = out@;
    let mut j: usize = from;
    while j < to
        invariant
            from <= j <= to <= v@.len(),
            out@ == out0 + v@.subrange(from as int, j as int),
        decreases to - j,
    {
        out.push(v[j]);
        proof {
            assert(out@ =~= out0 + v@.subrange(from as int, j + 1 as int));
        }
        j += 1;
    }
    proof {
        assert(out@ =~= out0 + v@.subrange(from as int, to as int));
    }
}

/// Rewrites every inline `http(s)` link into the silent-embed form.
pub fn rewrite_links_vec(v: &Vec<char>) -> (out: Vec<char>)
    ensures
        out@ == rewrite_links(v@),
{
    let mut out: Vec<char> = Vec::new();
    proof {
        assert(out@ + rewrite_from(v@, 0) =~= rewrite_from(v@, 0));
    }
    let mut i: usize = 0;
    while i < v.len()
        invariant
            0 <= i <= v@.len(),
            out@ + rewrite_from(v@, i as int) == rewrite_from(v@, 0),
        decreases v@.len() - i,
    {
        let ghost prev = out@;
        match try_match(v, i) {
            Option::Some(p) => {
                let (tend, uend) = p;
                out.push('[');
                push_range(&mut out, v, i + 1, tend);
                out.push(']');
                out.push('(');
                out.push('<');
                push_range(&mut out, v, tend + 2, uend);
                out.push('>');
                out.push(')');
                proof {
                    let s = v@;
                    let ti = i as int;
                    let te = tend as int;
                    let ue = uend as int;
                    assert(rewrite_from(s, ti) == seq!['['] + s.subrange(ti + 1, te) + seq![
                        ']',
                        '(',
                        '<',
                    ] + s.subrange(te + 2, ue) + seq!['>', ')'] + rewrite_from(s, ue + 1));
                    assert(out@ =~= prev + (seq!['['] + s.subrange(ti + 1, te) + seq![
                        ']',
                        '(',
                        '<',
                    ] + s.subrange(te + 2, ue) + seq!['>', ')']));
                    assert(out@ + rewrite_from(s, ue + 1) =~= prev + rewrite_from(s, ti));
                }
                i = uend + 1;
            },
            Option::None => {
                out.push(v[i]);
                proof {
                    assert(rewrite_from(v@, i as int) == seq![v@[i as int]] + rewrite_from(
                        v@,
                        i + 1,
                    ));
                    assert(out@ + rewrite_from(v@, i + 1) =~= prev + rewrite_from(v@, i as int));
                }
                i += 1;
            },
        }
    }
    proof {
        assert(rewrite_from(v@, i as int) =~= Seq::<char>::empty());
        assert(out@ =~= out@ + rewrite_from(v@, i as int));
    }
    out
}

// ---------------------------------------------------------------------------
// Building texts character by character
// ---------------------------------------------------------------------------

/// The characters of `s`, as a vector.
pub fn chars_of(s: &str) -> (v: Vec<char>)
    ensures
        v@ == s@,
{
    let n = s.unicode_len();
    let mut v: Vec<char> = Vec::new();
    let mut j: usize = 0;
    while j < n
        invariant
            j <= n,
            n == s@.len(),
            v@ == s@.subrange(0, j as int),
        decreases n - j,
    {
        v.push(s.get_char(j));
        proof {
            assert(v@ =~= s@.subrange(0, j + 1 as int));
        }
        j += 1;
    }
    proof {
        assert(v@ =~= s@);
    }
    v
}

/// Appends the characters of `s` to `out`.
pub fn push_chars(out: &mut Vec<char>, s: &str)
    ensures
        final(out)@ == old(out)@ + s@,
{
    let ghost out0 = out@;
    let n = s.unicode_len();
    let mut j: usize = 0;
    while j < n
        invariant
            j <= n,
            n == s@.len(),
            out@ == out0 + s@.subrange(0, j as int),
        decreases n - j,
    {
        out.push(s.get_char(j));
        proof {
            assert(out@ =~= out0 + s@.subrange(0, j + 1 as int));
        }
        j += 1;
    }
    proof {
        assert(out@ =~= out0 + s@);
    }
}

/// Appends all of `v` to `out`.
pub fn push_vec(out: &mut Vec<char>, v: &Vec<char>)
    ensures
        final(out)@ == old(out)@ + v@,
{
    let ghost out0 = out@;
    push_range(out, v, 0, v.len());
    proof {
        assert(out@ =~= out0 + v@);
    }
}

/// Relies on std's FromIterator for String: collecting characters yields the
/// string of exactly those characters in order.
#[verifier::external_body]
pub fn string_from_chars(v: &Vec<char>) -> (s: String)
    ensures
        s@ == v@,
{
    v.iter().collect()
}

/// The two strings are equal exactly when their characters are.
pub fn str_eq(a: &str, b: &str) -> (r: bool)
    ensures
        r == (a@ == b@),
{
    let sa = a.to_owned();
    let sb = b.to_owned();
    sa == sb
}

/// Removes every line of `s` consisting only of whitespace, terminated
/// or not.
pub fn collapse_blank_lines(s: &str) -> (r: String)
    ensures
        r@ == strip_blank_lines(s@),
{
    let v = chars_of(s);
    let out = strip_blank_lines_vec(&v);
    string_from_chars(&out)
}

/// Rewrites every inline `http(s)` link of `s` into the silent-embed form
/// `[text](<url>)`.
pub fn silent_embed_links(s: &str) -> (r: String)
    ensures
        r@ == rewrite_links(s@),
{
    let v = chars_of(s);
    let out = rewrite_links_vec(&v);
    string_from_chars(&out)
}

// ---------------------------------------------------------------------------
// Truncation to the character budget
// ---------------------------------------------------------------------------

/// The index of the last `'\n'` in `s` at or before `i`, or `-1` if none.
pub open spec fn rfind_nl(s: Seq<char>, i: int) -> int
    decreases i + 1 when i >= -1
{
    if i < 0 {
        -1
    } else if s[i] == '\n' {
        i
    } else {
        rfind_nl(s, i - 1)
    }
}

/// `t` ends with the silent-embed close sequence `>)`.
pub open spec fn ends_closed(t: Seq<char>) -> bool {
    t.len() >= 2 && t[t.len() - 2] == '>' && t[t.len() - 1] == ')'
}

/// Everything before the last line of `t`: one trailing newline is set
/// aside, the rest is cut at its last newline (exclusive); without any
/// newline nothing is left.
pub open spec fn drop_last_line(t: Seq<char>) -> Seq<char> {
    let u = if t.len() > 0 && t[t.len() - 1] == '\n' {
        t.subrange(0, t.len() - 1)
    } else {
        t
    };
    let k = rfind_nl(u, u.len() - 1);
    if k < 0 {
        Seq::empty()
    } else {
        u.subrange(0, k)
    }
}

/// The first `n` characters of `s`, or all of it if shorter.
pub open spec fn clip(s: Seq<char>, n: int) -> Seq<char> {
    if s.len() <= n {
        s
    } else {
        s.subrange(0, n)
    }
}

/// Cuts `v` back to at most `n` characters, as `clip` describes.
pub fn clip_vec(v: Vec<char>, n: usize) -> (out: Vec<char>)
    ensures
        out@ == clip(v@, n as int),
{
    if v.len() <= n {
        v
    } else {
        let mut out: Vec<char> = Vec::new();
        push_range(&mut out, &v, 0, n);
        proof {
            assert(out@ =~= v@.subrange(0, n as int));
        }
        out
    }
}

/// Joins the rendered commit body and the footer under the character budget.
/// The budget for the body leaves room for the footer, an ellipsis and a
/// newline.  An over-long body is cut to that budget and given the ellipsis;
/// if the cut did not land right after a silent-embed close `>)`, the last
/// (possibly broken) line is dropped entirely; a trailing newline is then
/// restored.  This is a best-effort guard against emitting a broken partial
/// link, not a guarantee.  Whatever the footer's own length, the joined
/// content is finally clipped to the budget: the message invariant comes
/// before the footer.
pub open spec fn assemble(body: Seq<char>, footer: Seq<char>) -> Seq<char> {
    let limit: int = if footer.len() + 4 <= crate::MAX_CONTENT_CHARS {
        crate::MAX_CONTENT_CHARS - footer.len() - 4
    } else {
        0
    };
    let joined = if body.len() > limit {
        let t = body.subrange(0, limit) + seq!['.', '.', '.'];
        let kept = if ends_closed(t) {
            t
        } else {
            drop_last_line(t)
        };
        kept + seq!['\n'] + footer
    } else {
        body + footer
    };
    clip(joined, crate::MAX_CONTENT_CHARS as int)
}

/// Cuts `t` back to everything before its last line, as `drop_last_line`
/// describes.
fn drop_last_line_vec(t: &Vec<char>) -> (out: Vec<char>)
    ensures
        out@ == drop_last_line(t@),
{
    let n = t.len();
    let ulen = if n > 0 && t[n - 1] == '\n' {
        n - 1
    } else {
        n
    };
    let ghost u = if t@.len() > 0 && t@[t@.len() - 1] == '\n' {
        t@.subrange(0, t@.len() - 1)
    } else {
        t@
    };
    proof {
        assert(u.len() == ulen);
        assert(forall|j: int| 0 <= j < ulen ==> u[j] == t@[j]);
    }
    let mut k: usize = ulen;
    while k > 0
        invariant
            0 <= k <= ulen <= t@.len(),
            u == (if t@.len() > 0 && t@[t@.len() - 1] == '\n' {
                t@.subrange(0, t@.len() - 1)
            } else {
                t@
            }),
            u.len() == ulen,
            forall|j: int| 0 <= j < ulen ==> u[j] == t@[j],
            rfind_nl(u, ulen - 1) == rfind_nl(u, k - 1),
        decreases k,
    {
        if t[k - 1] == '\n' {
            let mut out: Vec<char> = Vec::new();
            push_range(&mut out, t, 0, k - 1);
            proof {
                assert(u[k as int - 1] == t@[k as int - 1]);
                assert(rfind_nl(u, k as int - 1) == k as int - 1);
                assert(rfind_nl(u, u.len() - 1) == k as int - 1);
                assert(out@ =~= u.subrange(0, k as int - 1));
                assert(drop_last_line(t@) =~= u.subrange(0, k as int - 1));
            }
            return out;
        }
        k -= 1;
    }
    proof {
        assert(rfind_nl(u, -1) == -1);
    }
    Vec::new()
}

/// Joins a rendered commit body and a footer under the character budget, as
/// `assemble` describes.
pub fn assemble_content(body: &Vec<char>, footer: &Vec<char>) -> (out: Vec<char>)
    ensures
        out@ == assemble(body@, footer@),
{
    let flen = footer.len();
    let limit: usize = if flen <= crate::MAX_CONTENT_CHARS - 4 {
        crate::MAX_CONTENT_CHARS - 4 - flen
    } else {
        0
    };
    if body.len() > limit {
        let mut t: Vec<char> = Vec::new();
        push_range(&mut t, body, 0, limit);
        t.push('.');
        t.push('.');
        t.push('.');
        proof {
            assert(t@ =~= body@.subrange(0, limit as int) + seq!['.', '.', '.']);
        }
        let tn = t.len();
        let closed = tn >= 2 && t[tn - 1] == ')' && t[tn - 2] == '>';
        let mut out = if closed {
            t
        } else {
            drop_last_line_vec(&t)
        };
        out.push('\n');
        push_range(&mut out, footer, 0, flen);
        proof {
            let kept = if ends_closed(body@.subrange(0, limit as int) + seq!['.', '.', '.']) {
                body@.subrange(0, limit as int) + seq!['.', '.', '.']
            } else {
                drop_last_line(body@.subrange(0, limit as int) + seq!['.', '.', '.'])
            };
            assert(out@ =~= kept + seq!['\n'] + footer@.subrange(0, flen as int));
            assert(footer@.subrange(0, flen as int) =~= footer@);
            assert(out@ =~= kept + seq!['\n'] + footer@);
        }
        clip_vec(out, crate::MAX_CONTENT_CHARS)
    } else {
        let mut out: Vec<char> = Vec::new();
        push_range(&mut out, body, 0, body.len());
        push_range(&mut out, footer, 0, flen);
        proof {
            assert(out@ =~= body@ + footer@);
        }
        clip_vec(out, crate::MAX_CONTENT_CHARS)
    }
}

// ---------------------------------------------------------------------------
// Laws of the transformations
// ---------------------------------------------------------------------------

/// The assembled content never exceeds the character budget, whatever the
/// body and footer; and a body that fits its budget is passed through with
/// the whole footer and no truncation artifact.
pub proof fn lemma_truncation_budget(body: Seq<char>, footer: Seq<char>)
    ensures
        assemble(body, footer).len() <= crate::MAX_CONTENT_CHARS,
        body.len() + footer.len() + 4 <= crate::MAX_CONTENT_CHARS ==> assemble(body, footer)
            == body + footer,
{
    if body.len() + footer.len() + 4 <= crate::MAX_CONTENT_CHARS {
        let limit: int = crate::MAX_CONTENT_CHARS - footer.len() - 4;
        assert(body.len() <= limit);
        assert(clip(body + footer, crate::MAX_CONTENT_CHARS as int) == body + footer);
    }
}

/// Searching is unaffected by what stands before the search's start.
proof fn lemma_find_from_shift(a: Seq<char>, b: Seq<char>, i: int, c: char)
    requires
        0 <= i <= b.len(),
    ensures
        find_from(a + b, a.len() + i, c) == a.len() + find_from(b, i, c),
    decreases b.len() - i,
{
    let s = a + b;
    if i >= b.len() {
        assert(find_from(s, a.len() + i, c) == s.len());
    } else {
        assert(s[a.len() + i] == b[i]);
        if b[i] != c {
            lemma_find_from_shift(a, b, i + 1, c);
        }
    }
}

/// Link matching is unaffected by what stands before the match's start.
proof fn lemma_match_at_shift(a: Seq<char>, b: Seq<char>, i: int)
    requires
        0 <= i < b.len(),
    ensures
        match match_at(b, i) {
            Option::Some(m) => match_at(a + b, a.len() + i) == Option::Some(
                (a.len() + m.0, a.len() + m.1),
            ),
            Option::None => match_at(a + b, a.len() + i) is None,
        },
{
    let s = a + b;
    let la = a.len() as int;
    assert(forall|j: int| 0 <= j < b.len() ==> s[la + j] == b[j]);
    assert(s.len() == la + b.len());
    lemma_find_from(b, i + 1, ']');
    lemma_find_from_shift(a, b, i + 1, ']');
    let f = find_from(b, i + 1, ']');
    if f + 2 <= b.len() {
        lemma_find_from(b, f + 2, ')');
        lemma_find_from_shift(a, b, f + 2, ')');
        let g = find_from(b, f + 2, ')');
        if g < b.len() {
            assert(scheme_at(s, la + f + 2, la + g) == scheme_at(b, f + 2, g));
        }
    }
}

/// Rewriting is unaffected by what stands before the scan's start.
proof fn lemma_rewrite_from_shift(a: Seq<char>, b: Seq<char>, i: int)
    requires
        0 <= i <= b.len(),
    ensures
        rewrite_from(a + b, a.len() + i) == rewrite_from(b, i),
    decreases b.len() - i,
{
    let s = a + b;
    let la = a.len() as int;
    if i < b.len() {
        lemma_match_at_shift(a, b, i);
        match match_at(b, i) {
            Option::Some(m) => {
                lemma_find_from(b, i + 1, ']');
                lemma_find_from(b, m.0 + 2, ')');
                let next = if m.1 + 1 < i + 1 {
                    i + 1
                } else {
                    m.1 + 1
                };
                lemma_rewrite_from_shift(a, b, next);
                assert(s.subrange(la + i + 1, la + m.0) =~= b.subrange(i + 1, m.0));
                assert(s.subrange(la + m.0 + 2, la + m.1) =~= b.subrange(m.0 + 2, m.1));
            },
            Option::None => {
                assert(s[la + i] == b[i]);
                lemma_rewrite_from_shift(a, b, i + 1);
            },
        }
    }
}

/// An inline link already in silent-embed form: URL wrapped in angle
/// brackets.
pub open spec fn wrapped_link(t: Seq<char>, u: Seq<char>) -> Seq<char> {
    seq!['['] + t + seq![']', '(', '<'] + u + seq!['>', ')']
}

/// Rewriting never double-wraps: a text that starts with an
/// already-silent-embedded link keeps that link untouched, and the rewrite
/// carries on after it.  So applying the rewrite to its own output leaves
/// the links it wrapped alone.  The link text may hold anything but `]`;
/// the URL anything but `)`, `]` and `[`.
pub proof fn lemma_rewrite_skips_wrapped(t: Seq<char>, u: Seq<char>, r: Seq<char>)
    requires
        t.len() > 0,
        forall|j: int| 0 <= j < t.len() ==> t[j] != ']',
        forall|j: int| 0 <= j < u.len() ==> u[j] != ')' && u[j] != ']' && u[j] != '[',
    ensures
        rewrite_links(wrapped_link(t, u) + r) == wrapped_link(t, u) + rewrite_links(r),
{
    let w = wrapped_link(t, u);
    let s = w + r;
    let tl = t.len() as int;
    let ul = u.len() as int;
    let len = w.len() as int;
    assert(len == tl + ul + 6);
    assert(forall|j: int| 0 <= j < len ==> s[j] == w[j]);
    assert(s[0] == '[');
    assert(forall|j: int| 1 <= j < 1 + tl ==> s[j] == t[j - 1]);
    assert(s[1 + tl] == ']');
    assert(s[2 + tl] == '(');
    assert(s[3 + tl] == '<');
    assert(forall|j: int| 4 + tl <= j < 4 + tl + ul ==> s[j] == u[j - 4 - tl]);
    assert(s[4 + tl + ul] == '>');
    assert(s[5 + tl + ul] == ')');
    assert forall|i: int| 0 <= i < len implies match_at(s, i) is None by {
        if s[i] == '[' {
            // only the opening bracket or a bracket inside the text
            assert(i == 0 || (1 <= i <= tl));
            lemma_find_from(s, i + 1, ']');
            let f = find_from(s, i + 1, ']');
            assert(forall|j: int| i + 1 <= j < 1 + tl ==> s[j] != ']');
            assert(f == 1 + tl) by {
                if f < 1 + tl {
                    assert(s[f] == ']');
                } else if f > 1 + tl {
                    assert(s[1 + tl] != ']');
                }
            }
            if f > i + 1 {
                lemma_find_from(s, f + 2, ')');
                let g = find_from(s, f + 2, ')');
                assert(s[f + 2] == '<');
                assert(!scheme_at(s, f + 2, g));
            }
        }
    }
    lemma_rewrite_no_match_segment(s, 0, len);
    lemma_rewrite_from_shift(w, r, 0);
    assert(s.subrange(0, len) =~= w);
}

/// A text with no inline `http(s)` link left to rewrite — in particular
/// one whose links are all already in silent-embed form, which the scheme
/// check refuses to match — comes back from the rewrite unchanged, so
/// rewriting such a text twice is the same as rewriting it once.
pub proof fn lemma_rewrite_fixed_without_matches(s: Seq<char>)
    requires
        forall|i: int| 0 <= i < s.len() ==> match_at(s, i) is None,
    ensures
        rewrite_links(s) == s,
        rewrite_links(rewrite_links(s)) == rewrite_links(s),
{
    lemma_rewrite_no_match_segment(s, 0, s.len() as int);
    assert(rewrite_from(s, s.len() as int) =~= Seq::<char>::empty());
    assert(s.subrange(0, s.len() as int) + rewrite_from(s, s.len() as int) =~= s);
}

/// A text that is exactly an already-silent-embedded link comes back from
/// the rewrite unchanged.
pub proof fn lemma_rewrite_fixed_on_wrapped(t: Seq<char>, u: Seq<char>)
    requires
        t.len() > 0,
        forall|j: int| 0 <= j < t.len() ==> t[j] != ']',
        forall|j: int| 0 <= j < u.len() ==> u[j] != ')' && u[j] != ']' && u[j] != '[',
    ensures
        rewrite_links(wrapped_link(t, u)) == wrapped_link(t, u),
{
    lemma_rewrite_skips_wrapped(t, u, Seq::empty());
    assert(wrapped_link(t, u) + Seq::<char>::empty() =~= wrapped_link(t, u));
    assert(rewrite_links(Seq::<char>::empty()) =~= Seq::<char>::empty());
    assert(wrapped_link(t, u) + rewrite_links(Seq::<char>::empty()) =~= wrapped_link(t, u));
}

/// Where no link match starts in `[k, n)`, the rewrite copies that segment
/// through unchanged.
proof fn lemma_rewrite_no_match_segment(s: Seq<char>, k: int, n: int)
    requires
        0 <= k <= n <= s.len(),
        forall|i: int| k <= i < n ==> match_at(s, i) is None,
    ensures
        rewrite_from(s, k) == s.subrange(k, n) + rewrite_from(s, n),
    decreases n - k,
{
    if k < n {
        assert(rewrite_from(s, k) == seq![s[k]] + rewrite_from(s, k + 1));
        lemma_rewrite_no_match_segment(s, k + 1, n);
        assert(seq![s[k]] + (s.subrange(k + 1, n) + rewrite_from(s, n)) =~= s.subrange(k, n)
            + rewrite_from(s, n));
    } else {
        assert(s.subrange(k, n) + rewrite_from(s, n) =~= rewrite_from(s, k));
    }
}

/// No newline-terminated line of `r` consists only of whitespace: wherever
/// a line starts and a newline closes it, some character between them is
/// not whitespace.
pub open spec fn no_blank_terminated_line(r: Seq<char>) -> bool {
    forall|i: int, e: int|
        0 <= i <= e < r.len() && (i == 0 || r[i - 1] == '\n') && r[e] == '\n' ==> !all_ws_range(
            r,
            i,
            e,
        )
}

/// No character of `r` in `[a, b)` is a newline.
pub open spec fn no_nl_range(r: Seq<char>, a: int, b: int) -> bool {
    forall|j: int| a <= j < b ==> r[j] != '\n'
}

/// A line starts at `i`, runs to the end of `r` without a terminating
/// newline, and consists only of whitespace.
pub open spec fn blank_final_line_at(r: Seq<char>, i: int) -> bool {
    0 <= i < r.len() && (i == 0 || r[i - 1] == '\n') && no_nl_range(r, i, r.len() as int)
        && all_ws_range(r, i, r.len() as int)
}

/// Whatever the input, the cleanup leaves no line consisting only of
/// whitespace: none closed by a newline, and no such final line either.
pub proof fn lemma_strip_no_blank_line_left(s: Seq<char>)
    ensures
        no_blank_terminated_line(strip_blank_lines(s)),
        forall|i: int| !blank_final_line_at(strip_blank_lines(s), i),
{
    lemma_strip_from_no_blank(s, 0);
    lemma_strip_from_no_blank_final(s, 0);
}

proof fn lemma_strip_from_no_blank_final(s: Seq<char>, k: int)
    requires
        0 <= k <= s.len(),
    ensures
        forall|i: int| !blank_final_line_at(strip_blank_from(s, k), i),
    decreases s.len() - k,
{
    let r = strip_blank_from(s, k);
    if k >= s.len() {
        assert(r == Seq::<char>::empty());
        assert(forall|i: int| !blank_final_line_at(r, i));
    }
    if k < s.len() {
        let e0 = find_from(s, k, '\n');
        lemma_find_from(s, k, '\n');
        if e0 >= s.len() {
            if all_ws_range(s, k, s.len() as int) {
                assert(r == Seq::<char>::empty());
                assert(forall|i: int| !blank_final_line_at(r, i));
            } else {
                let j0 = choose|j: int| k <= j < s.len() && !ws_char(s[j]);
                assert(k <= j0 < s.len() && !ws_char(s[j0])) by {
                    assert(!all_ws_range(s, k, s.len() as int));
                }
                assert(r == s.subrange(k, s.len() as int));
                assert forall|i: int| !blank_final_line_at(r, i) by {
                    if blank_final_line_at(r, i) {
                        assert(i == 0) by {
                            if i > 0 {
                                assert(r[i - 1] == s[k + i - 1]);
                            }
                        }
                        assert(r[j0 - k] == s[j0]);
                        assert(ws_char(r[j0 - k]));
                    }
                }
            }
        } else if all_ws_range(s, k, e0) {
            lemma_strip_from_no_blank_final(s, e0 + 1);
            assert(r == strip_blank_from(s, e0 + 1));
            assert(forall|i: int| !blank_final_line_at(r, i));
        } else {
            lemma_strip_from_no_blank_final(s, e0 + 1);
            let rest = strip_blank_from(s, e0 + 1);
            let l1 = e0 + 1 - k;
            assert(r == s.subrange(k, e0 + 1) + rest);
            assert(r.len() == l1 + rest.len());
            assert(forall|j: int| 0 <= j < l1 ==> r[j] == s[k + j]);
            assert(forall|j: int| l1 <= j < r.len() ==> r[j] == rest[j - l1]);
            assert(r[l1 - 1] == '\n');
            assert forall|i: int| !blank_final_line_at(r, i) by {
                if blank_final_line_at(r, i) {
                    // the kept line's own newline forces the blank final
                    // line to lie wholly inside the cleaned-up remainder
                    assert(i >= l1) by {
                        if i < l1 {
                            assert(r[l1 - 1] == '\n');
                        }
                    }
                    let i2 = i - l1;
                    assert(i2 == 0 || rest[i2 - 1] == '\n') by {
                        if i2 > 0 {
                            assert(r[i - 1] == rest[i2 - 1]);
                        }
                    }
                    assert(no_nl_range(rest, i2, rest.len() as int)) by {
                        assert(forall|j: int| i2 <= j < rest.len() ==> rest[j] == r[l1 + j]);
                    }
                    assert(all_ws_range(rest, i2, rest.len() as int)) by {
                        assert(forall|j: int| i2 <= j < rest.len() ==> rest[j] == r[l1 + j]);
                    }
                    assert(blank_final_line_at(rest, i2));
                }
            }
        }
    }
}

proof fn lemma_strip_from_no_blank(s: Seq<char>, k: int)
    requires
        0 <= k <= s.len(),
    ensures
        no_blank_terminated_line(strip_blank_from(s, k)),
    decreases s.len() - k,
{
    let r = strip_blank_from(s, k);
    if k < s.len() {
        let e0 = find_from(s, k, '\n');
        lemma_find_from(s, k, '\n');
        if e0 >= s.len() {
            // the remainder holds no newline at all
            assert forall|i: int, e: int|
                0 <= i <= e < r.len() && (i == 0 || r[i - 1] == '\n') && r[e]
                    == '\n' implies !all_ws_range(r, i, e) by {
                assert(r[e] == s[k + e]);
                assert(false);
            }
        } else if all_ws_range(s, k, e0) {
            lemma_strip_from_no_blank(s, e0 + 1);
        } else {
            lemma_strip_from_no_blank(s, e0 + 1);
            let rest = strip_blank_from(s, e0 + 1);
            let l1 = e0 + 1 - k;
            assert(r == s.subrange(k, e0 + 1) + rest);
            assert(r.len() == l1 + rest.len());
            assert(forall|j: int| 0 <= j < l1 ==> r[j] == s[k + j]);
            assert(forall|j: int| l1 <= j < r.len() ==> r[j] == rest[j - l1]);
            let j0 = choose|j: int| k <= j < e0 && !ws_char(s[j]);
            assert(k <= j0 < e0 && !ws_char(s[j0])) by {
                assert(!all_ws_range(s, k, e0));
            }
            assert forall|i: int, e: int|
                0 <= i <= e < r.len() && (i == 0 || r[i - 1] == '\n') && r[e]
                    == '\n' implies !all_ws_range(r, i, e) by {
                if i < l1 {
                    // a line can only start at the front of the kept line:
                    // its interior holds no newline
                    assert(i == 0) by {
                        if i > 0 {
                            assert(r[i - 1] == s[k + i - 1]);
                        }
                    }
                    // the kept line's non-whitespace character is inside [i, e)
                    assert(e >= l1 - 1) by {
                        if e < l1 - 1 {
                            assert(r[e] == s[k + e]);
                        }
                    }
                    assert(r[j0 - k] == s[j0]);
                    assert(i <= j0 - k < e);
                    assert(!all_ws_range(r, i, e)) by {
                        if all_ws_range(r, i, e) {
                            assert(ws_char(r[j0 - k]));
                        }
                    }
                } else {
                    // the line lies inside the cleaned-up remainder
                    let i2 = i - l1;
                    let e2 = e - l1;
                    assert(i2 == 0 || rest[i2 - 1] == '\n') by {
                        if i2 > 0 {
                            assert(r[i - 1] == rest[i2 - 1]);
                        }
                    }
                    assert(rest[e2] == '\n');
                    assert(!all_ws_range(rest, i2, e2));
                    assert(exists|j: int| i2 <= j < e2 && !ws_char(rest[j]));
                    let jw = choose|j: int| i2 <= j < e2 && !ws_char(rest[j]);
                    assert(r[l1 + jw] == rest[jw]);
                    assert(!all_ws_range(r, i, e)) by {
                        if all_ws_range(r, i, e) {
                            assert(ws_char(r[l1 + jw]));
                        }
                    }
                }
            }
        }
    }
}

/// A message that consists only of whitespace is cleaned up to nothing.
pub proof fn lemma_strip_all_blank(s: Seq<char>)
    requires
        all_ws_range(s, 0, s.len() as int),
    ensures
        strip_blank_lines(s) == Seq::<char>::empty(),
{
    lemma_strip_all_blank_from(s, 0);
}

proof fn lemma_strip_all_blank_from(s: Seq<char>, i: int)
    requires
        0 <= i <= s.len(),
        all_ws_range(s, i, s.len() as int),
    ensures
        strip_blank_from(s, i) == Seq::<char>::empty(),
    decreases s.len() - i,
{
    if i < s.len() {
        let e = find_from(s, i, '\n');
        lemma_find_from(s, i, '\n');
        if e < s.len() {
            assert(all_ws_range(s, i, e));
            lemma_strip_all_blank_from(s, e + 1);
        } else {
            assert(all_ws_range(s, i, s.len() as int));
        }
    }
}

} // verus!
