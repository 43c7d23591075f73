use vstd::prelude::*;

use crate::preference::ThemePreference;
use crate::themes::ThemeTable;

verus! {

pub const NEWLINE: u8 = 10;

pub const CARRIAGE_RETURN: u8 = 13;

pub const QUOTE: u8 = 34;

/// The bytes that open the editor's theme directive: `theme = `.
pub open spec fn theme_prefix() -> Seq<u8> {
    seq![116u8, 104u8, 101u8, 109u8, 101u8, 32u8, 61u8, 32u8]
}

/// Position `i` begins a line of `t`.
pub open spec fn is_line_start(t: Seq<u8>, i: int) -> bool {
    i == 0 || (0 < i <= t.len() && t[i - 1] == NEWLINE)
}

/// A line of `t` begins at `i` with the theme directive's prefix.
pub open spec fn is_directive_at(t: Seq<u8>, i: int) -> bool {
    &&& is_line_start(t, i)
    &&& 0 <= i
    &&& i + theme_prefix().len() <= t.len()
    &&& t.subrange(i, i + theme_prefix().len()) == theme_prefix()
}

/// The first directive of `t` at or after `i`.
pub open spec fn directive_from(t: Seq<u8>, i: int) -> Option<int>
    decreases t.len() - i,
{
    if i < 0 || i >= t.len() {
        None
    } else if is_directive_at(t, i) {
        Some(i)
    } else {
        directive_from(t, i + 1)
    }
}

/// Where the first theme directive of `t` begins, if it has one.
pub open spec fn first_directive(t: Seq<u8>) -> Option<int> {
    directive_from(t, 0)
}

/// The first newline of `t` at or after `i`, or the end of `t`.
pub open spec fn line_end_from(t: Seq<u8>, i: int) -> int
    decreases t.len() - i,
{
    if i < 0 || i >= t.len() {
        t.len() as int
    } else if t[i] == NEWLINE {
        i
    } else {
        line_end_from(t, i + 1)
    }
}

/// Where the content of the line that starts at `i` ends: before its newline,
/// and before a carriage return that precedes the newline.
pub open spec fn content_end(t: Seq<u8>, i: int) -> int {
    let e = line_end_from(t, i);
    if e > i && t[e - 1] == CARRIAGE_RETURN {
        e - 1
    } else {
        e
    }
}

/// The directive that selects theme `name`: `theme = "name"`.
pub open spec fn directive_line(name: Seq<u8>) -> Seq<u8> {
    theme_prefix() + seq![QUOTE] + name + seq![QUOTE]
}

/// `t` with the content of its first theme directive replaced by the
/// directive for `name`; `t` itself when it has no directive. Every other
/// byte, line endings included, is kept.
pub open spec fn with_theme(t: Seq<u8>, name: Seq<u8>) -> Seq<u8> {
    match first_directive(t) {
        None => t,
        Some(i) => t.subrange(0, i) + directive_line(name) + t.subrange(
            content_end(t, i),
            t.len() as int,
        ),
    }
}

/// The directive that `directive_from` finds is one, and none comes before it.
pub proof fn lemma_directive_from_found(t: Seq<u8>, s: int)
    requires
        0 <= s,
        directive_from(t, s) is Some,
    ensures
        s <= directive_from(t, s)->0 < t.len(),
        is_directive_at(t, directive_from(t, s)->0),
        forall|k: int| s <= k < directive_from(t, s)->0 ==> !is_directive_at(t, k),
    decreases t.len() - s,
{
    if s < t.len() && !is_directive_at(t, s) {
        lemma_directive_from_found(t, s + 1);
    }
}

/// A directive with none before it from `s` on is what `directive_from` finds.
pub proof fn lemma_directive_from_at(t: Seq<u8>, s: int, i: int)
    requires
        0 <= s <= i < t.len(),
        is_directive_at(t, i),
        forall|k: int| s <= k < i ==> !is_directive_at(t, k),
    ensures
        directive_from(t, s) == Some(i),
    decreases i - s,
{
    if s < i {
        lemma_directive_from_at(t, s + 1, i);
    }
}

/// A theme name fit for a directive: it holds no newline.
pub open spec fn is_line_safe(name: Seq<u8>) -> bool {
    forall|k: int| 0 <= k < name.len() ==> name[k] != NEWLINE
}

/// Text without a theme directive is left exactly as it was.
pub proof fn lemma_no_directive_unchanged(t: Seq<u8>, name: Seq<u8>)
    requires
        first_directive(t) is None,
    ensures
        with_theme(t, name) == t,
{
}

/// A directive line for a line-safe name holds no newline and ends in a quote.
pub proof fn lemma_directive_line_shape(name: Seq<u8>)
    requires
        is_line_safe(name),
    ensures
        forall|k: int| 0 <= k < directive_line(name).len() ==> directive_line(name)[k] != NEWLINE,
        directive_line(name)[directive_line(name).len() - 1] == QUOTE,
        directive_line(name).subrange(0, theme_prefix().len() as int) == theme_prefix(),
{
    let p = theme_prefix();
    let line = directive_line(name);
    assert forall|k: int| 0 <= k < line.len() implies line[k] != NEWLINE by {
        if k < p.len() {
            assert(line[k] == p[k]);
        } else if k == p.len() {
        } else if k < p.len() + 1 + name.len() {
            assert(line[k] == name[k - p.len() - 1]);
        }
    }
    assert(line.subrange(0, p.len() as int) =~= p);
}

/// Changing text only from a line start `i` on adds no directive before `i`.
pub proof fn lemma_no_directive_before(t: Seq<u8>, u: Seq<u8>, i: int)
    requires
        0 < i <= t.len(),
        i <= u.len(),
        t[i - 1] == NEWLINE,
        u.subrange(0, i) == t.subrange(0, i),
        forall|k: int| 0 <= k < i ==> !is_directive_at(t, k),
    ensures
        forall|k: int| 0 <= k < i ==> !is_directive_at(u, k),
{
    let p = theme_prefix();
    assert forall|k: int| 0 <= k < i implies !is_directive_at(u, k) by {
        assert(u[i - 1] == u.subrange(0, i)[i - 1]);
        assert(t[i - 1] == t.subrange(0, i)[i - 1]);
        if is_directive_at(u, k) {
            if k + p.len() <= i {
                assert(u.subrange(k, k + p.len()) =~= t.subrange(k, k + p.len())) by {
                    assert forall|j: int| k <= j < k + p.len() implies u[j] == t[j] by {
                        assert(u[j] == u.subrange(0, i)[j]);
                        assert(t[j] == t.subrange(0, i)[j]);
                    }
                }
                if k > 0 {
                    assert(u[k - 1] == u.subrange(0, i)[k - 1]);
                    assert(t[k - 1] == t.subrange(0, i)[k - 1]);
                }
                assert(is_directive_at(t, k));
            } else {
                assert(u.subrange(k, k + p.len())[i - 1 - k] == u[i - 1]);
            }
        }
    }
}

/// Applying the same theme twice gives the same bytes as applying it once.
pub proof fn lemma_with_theme_idempotent(t: Seq<u8>, name: Seq<u8>)
    requires
        is_line_safe(name),
    ensures
        with_theme(with_theme(t, name), name) == with_theme(t, name),
{
    if let Some(i) = first_directive(t) {
        let p = theme_prefix();
        let line = directive_line(name);
        let c = content_end(t, i);
        let e = line_end_from(t, i);
        let m = i + line.len();
        lemma_directive_from_found(t, 0);
        lemma_line_end_bounds(t, i);
        lemma_directive_line_shape(name);
        let u = t.subrange(0, i) + line + t.subrange(c, t.len() as int);
        assert(u == with_theme(t, name));
        assert(u.subrange(0, i) =~= t.subrange(0, i));
        assert forall|k: int| i <= k < m implies u[k] != NEWLINE by {
            assert(u[k] == line[k - i]);
        }
        assert(u.subrange(i, i + p.len()) =~= p) by {
            assert forall|k: int| 0 <= k < p.len() implies u.subrange(i, i + p.len())[k] == p[k] by {
                assert(u[i + k] == line[k]);
                assert(line.subrange(0, p.len() as int)[k] == line[k]);
            }
        }
        if i > 0 {
            assert(u[i - 1] == t[i - 1]);
            lemma_no_directive_before(t, u, i);
        }
        assert(is_directive_at(u, i));
        lemma_directive_from_at(u, 0, i);
        assert(u[m - 1] == QUOTE);
        if c == e {
            if e < t.len() {
                assert(u[m] == t[e]);
            }
            lemma_line_end_at(u, i, m);
        } else {
            assert(u[m] == t[e - 1]);
            if e < t.len() {
                assert(u[m + 1] == t[e]);
            }
            lemma_line_end_at(u, i, m + 1);
        }
        assert(content_end(u, i) == m);
        assert(with_theme(u, name) =~= u);
    }
}

fn directive_at(t: &[u8], i: usize) -> (r: bool)
    requires
        i < t@.len(),
    ensures
        r == is_directive_at(t@, i as int),
{
    let n = t.len();
    let starts_line = i == 0 || t[i - 1] == NEWLINE;
    if !starts_line || n - i < 8 {
        return false;
    }
    // The bytes of `theme = `, as `theme_prefix` lists them.
    let r = t[i] == 116 && t[i + 1] == 104 && t[i + 2] == 101 && t[i + 3] == 109 && t[i + 4]
        == 101 && t[i + 5] == 32 && t[i + 6] == 61 && t[i + 7] == 32;
    assert(r ==> t@.subrange(i as int, i + 8) =~= theme_prefix());
    assert(t@.subrange(i as int, i + 8) == theme_prefix() ==> r) by {
        if t@.subrange(i as int, i + 8) == theme_prefix() {
            assert(forall|k: int| 0 <= k < 8 ==> t@[i + k] == #[trigger] theme_prefix()[k]) by {
                assert forall|k: int| 0 <= k < 8 implies t@[i + k] == #[trigger] theme_prefix()[k] by {
                    assert(t@.subrange(i as int, i + 8)[k] == t@[i + k]);
                }
            }
        }
    }
    r
}

/// Finds where the first theme directive of `text` begins.
pub fn find_theme_directive(text: &[u8]) -> (r: Option<usize>)
    ensures
        first_directive(text@) == match r {
            Some(i) => Some(i as int),
            None => None::<int>,
        },
        r matches Some(i) ==> i < text@.len(),
{
    let mut i: usize = 0;
    while i < text.len()
        invariant
            i <= text@.len(),
            first_directive(text@) == directive_from(text@, i as int),
        decreases text@.len() - i,
    {
        if directive_at(text, i) {
            proof {
                lemma_directive_from_found(text@, i as int);
            }
            return Some(i);
        }
        i = i + 1;
    }
    None
}

/// The end of the line that starts at `s` lies in `[s, t.len()]`, has no
/// newline before it, and is a newline unless it is the end of `t`.
pub proof fn lemma_line_end_bounds(t: Seq<u8>, s: int)
    requires
        0 <= s <= t.len(),
    ensures
        s <= line_end_from(t, s) <= t.len(),
        forall|k: int| s <= k < line_end_from(t, s) ==> t[k] != NEWLINE,
        line_end_from(t, s) < t.len() ==> t[line_end_from(t, s)] == NEWLINE,
    decreases t.len() - s,
{
    if s < t.len() && t[s] != NEWLINE {
        lemma_line_end_bounds(t, s + 1);
    }
}

/// A position with no newline between `s` and it, which is a newline or the
/// end of `t`, is the end of the line that starts at `s`.
pub proof fn lemma_line_end_at(t: Seq<u8>, s: int, j: int)
    requires
        0 <= s <= j <= t.len(),
        forall|k: int| s <= k < j ==> t[k] != NEWLINE,
        j == t.len() || t[j] == NEWLINE,
    ensures
        line_end_from(t, s) == j,
    decreases j - s,
{
    if s < j {
        lemma_line_end_at(t, s + 1, j);
    }
}

fn line_end(t: &[u8], s: usize) -> (r: usize)
    requires
        s <= t@.len(),
    ensures
        r as int == line_end_from(t@, s as int),
{
    let mut j: usize = s;
    while j < t.len() && t[j] != NEWLINE
        invariant
            s <= j <= t@.len(),
            line_end_from(t@, s as int) == line_end_from(t@, j as int),
        decreases t@.len() - j,
    {
        j = j + 1;
    }
    j
}

fn content_end_of(t: &[u8], s: usize) -> (r: usize)
    requires
        s <= t@.len(),
    ensures
        r as int == content_end(t@, s as int),
        s <= r <= t@.len(),
{
    proof {
        lemma_line_end_bounds(t@, s as int);
    }
    let e = line_end(t, s);
    if e > s && t[e - 1] == CARRIAGE_RETURN {
        e - 1
    } else {
        e
    }
}

fn push_range(out: &mut Vec<u8>, src: &[u8], lo: usize, hi: usize)
    requires
        lo <= hi <= src@.len(),
    ensures
        final(out)@ == old(out)@ + src@.subrange(lo as int, hi as int),
{
    let mut k: usize = lo;
    while k < hi
        invariant
            lo <= k <= hi <= src@.len(),
            out@ == old(out)@ + src@.subrange(lo as int, k as int),
        decreases hi - k,
    {
        out.push(src[k]);
        assert(src@.subrange(lo as int, k + 1) =~= src@.subrange(lo as int, k as int).push(
            src@[k as int],
        ));
        k = k + 1;
    }
}

fn push_directive_line(out: &mut Vec<u8>, name: &[u8])
    ensures
        final(out)@ == old(out)@ + directive_line(name@),
{
    out.push(116);
    out.push(104);
    out.push(101);
    out.push(109);
    out.push(101);
    out.push(32);
    out.push(61);
    out.push(32);
    out.push(QUOTE);
    push_range(out, name, 0, name.len());
    out.push(QUOTE);
    assert(name@.subrange(0, name@.len() as int) =~= name@);
    assert(out@ =~= old(out)@ + directive_line(name@));
}

/// Rewrites the first theme directive of `text` to select theme `name`,
/// keeping every other byte. Text without a directive comes back unchanged.
pub fn rewrite_theme_line(text: &[u8], name: &[u8]) -> (r: Vec<u8>)
    ensures
        r@ == with_theme(text@, name@),
{
    match find_theme_directive(text) {
        None => {
            let mut out: Vec<u8> = Vec::new();
            push_range(&mut out, text, 0, text.len());
            assert(out@ =~= text@);
            out
        },
        Some(i) => {
            let c = content_end_of(text, i);
            let mut out: Vec<u8> = Vec::new();
            push_range(&mut out, text, 0, i);
            push_directive_line(&mut out, name);
            push_range(&mut out, text, c, text.len());
            assert(out@ =~= with_theme(text@, name@));
            out
        },
    }
}

/// The editor's configuration text after applying `pref`: its theme
/// directive names the theme that `themes` gives for `pref`. When no theme
/// name holds a newline, applying `pref` again to the result gives the result.
pub fn apply_editor_theme(themes: &ThemeTable, text: &[u8], pref: ThemePreference) -> (r: Vec<u8>)
    ensures
        r@ == with_theme(text@, themes.name_for(pref)),
        themes.names_line_safe() ==> with_theme(r@, themes.name_for(pref)) == r@,
{
    proof {
        if themes.names_line_safe() {
            lemma_with_theme_idempotent(text@, themes.name_for(pref));
        }
    }
    let name = themes.pick(pref);
    rewrite_theme_line(text, name.as_slice())
}

} // verus!
