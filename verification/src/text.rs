//! Character-level rules shared by the path, catalog and manifest code.
//!
//! Every rule is stated over `Seq<char>`, the view of a string, and each
//! executable function here is proved against that statement.

use vstd::prelude::*;

verus! {

/// `String::push` appends exactly one character to the end of the string.
pub assume_specification[ String::push ](s: &mut String, c: char)
    ensures
        final(s)@ == old(s)@.push(c),
;

/// The characters of `s`, in order.
pub fn chars_of(s: &str) -> (out: Vec<char>)
    ensures
        out@ == s@,
{
    let mut out: Vec<char> = Vec::new();
    for c in it: s.chars()
        invariant
            out@ == it.seq().take(it.index() as int),
    {
        out.push(c);
    }
    out
}

/// The string made of the characters `v[from..to]`.
pub fn string_of(v: &Vec<char>, from: usize, to: usize) -> (out: String)
    requires
        from <= to <= v.len(),
    ensures
        out@ == v@.subrange(from as int, to as int),
{
    let mut out = String::new();
    let mut i: usize = from;
    while i < to
        invariant
            from <= i <= to <= v.len(),
            out@ == v@.subrange(from as int, i as int),
        decreases to - i,
    {
        out.push(v[i]);
        i += 1;
    }
    out
}

/// Both forms of path separator.
pub open spec fn is_separator(c: char) -> bool {
    c == '/' || c == '\\'
}

/// How many separators stand at the front of `s`.
pub open spec fn leading_separators(s: Seq<char>) -> nat
    decreases s.len(),
{
    if s.len() > 0 && is_separator(s[0]) {
        1 + leading_separators(s.skip(1))
    } else {
        0
    }
}

/// `s` without the separators at its front.
pub open spec fn strip_leading_separators(s: Seq<char>) -> Seq<char> {
    s.skip(leading_separators(s) as int)
}

/// The count of leading separators is the one index `k` such that everything
/// before `k` is a separator and the character at `k`, if any, is not.
pub proof fn lemma_leading_separators(s: Seq<char>)
    ensures
        leading_separators(s) <= s.len(),
        forall|i: int| 0 <= i < leading_separators(s) ==> is_separator(#[trigger] s[i]),
        leading_separators(s) < s.len() ==> !is_separator(s[leading_separators(s) as int]),
    decreases s.len(),
{
    if s.len() > 0 && is_separator(s[0]) {
        let t = s.skip(1);
        lemma_leading_separators(t);
        assert forall|i: int| 0 <= i < leading_separators(s) implies is_separator(
            #[trigger] s[i],
        ) by {
            if i > 0 {
                assert(s[i] == t[i - 1]);
            }
        }
        if leading_separators(s) < s.len() {
            assert(s[leading_separators(s) as int] == t[leading_separators(t) as int]);
        }
    }
}

/// Any index with only separators before it and none at it is the count of
/// leading separators.
pub proof fn lemma_leading_separators_unique(s: Seq<char>, k: int)
    requires
        0 <= k <= s.len(),
        forall|i: int| 0 <= i < k ==> is_separator(#[trigger] s[i]),
        k < s.len() ==> !is_separator(s[k]),
    ensures
        leading_separators(s) == k,
{
    lemma_leading_separators(s);
    let n = leading_separators(s) as int;
    if n < k {
        assert(is_separator(s[n]));
    } else if k < n {
        assert(is_separator(s[k]));
    }
}

/// What is left after stripping starts with no separator, and stripping it
/// again changes nothing.
pub proof fn lemma_strip_is_final(s: Seq<char>)
    ensures
        strip_leading_separators(s).len() > 0 ==> !is_separator(strip_leading_separators(s)[0]),
        strip_leading_separators(strip_leading_separators(s)) == strip_leading_separators(s),
{
    lemma_leading_separators(s);
    let r = strip_leading_separators(s);
    lemma_leading_separators_unique(r, 0);
    assert(r.skip(0) =~= r);
}

/// Index of the first character of `v` that is no separator, or its length.
fn skip_separators(v: &Vec<char>) -> (k: usize)
    ensures
        k <= v.len(),
        k == leading_separators(v@),
{
    let mut k: usize = 0;
    while k < v.len() && (v[k] == '/' || v[k] == '\\')
        invariant
            k <= v.len(),
            forall|i: int| 0 <= i < k ==> is_separator(#[trigger] v@[i]),
        decreases v.len() - k,
    {
        k += 1;
    }
    proof {
        lemma_leading_separators_unique(v@, k as int);
    }
    k
}

/// The characters of `v` from the first that is no separator on.
pub fn strip_separator_chars(v: &Vec<char>) -> (out: String)
    ensures
        out@ == strip_leading_separators(v@),
{
    let k = skip_separators(v);
    let out = string_of(v, k, v.len());
    proof {
        assert(v@.subrange(k as int, v@.len() as int) =~= v@.skip(k as int));
    }
    out
}

/// Removes every leading `/` and `\`, in any mix, and nothing else.
pub fn strip_separators(path: &str) -> (out: String)
    ensures
        out@ == strip_leading_separators(path@),
{
    let v = chars_of(path);
    strip_separator_chars(&v)
}

/// `s` with every colon taken out.
pub open spec fn without_colons(s: Seq<char>) -> Seq<char> {
    s.filter(|c: char| c != ':')
}

/// Removes every `:` from `text`.
pub fn remove_colons(text: &str) -> (out: Vec<char>)
    ensures
        out@ == without_colons(text@),
{
    let v = chars_of(text);
    let mut out: Vec<char> = Vec::new();
    let mut i: usize = 0;
    while i < v.len()
        invariant
            i <= v.len(),
            out@ == without_colons(v@.take(i as int)),
        decreases v.len() - i,
    {
        proof {
            let keep = |c: char| c != ':';
            v@.take(i as int).lemma_filter_push(v@[i as int], keep);
            assert(v@.take(i as int).push(v@[i as int]) =~= v@.take(i as int + 1));
        }
        if v[i] != ':' {
            out.push(v[i]);
        }
        i += 1;
    }
    proof {
        assert(v@.take(v@.len() as int) =~= v@);
    }
    out
}

/// `tail` appended to `base` as a further path component: a rooted `tail`
/// replaces `base`, otherwise one `/` is put between the two unless `base`
/// is empty or already ends in one.
pub open spec fn join_path(base: Seq<char>, tail: Seq<char>) -> Seq<char> {
    if tail.len() > 0 && tail[0] == '/' {
        tail
    } else if base.len() == 0 || base.last() == '/' {
        base + tail
    } else {
        base.push('/') + tail
    }
}

/// Joins two path texts as `join_path` says.
pub fn join_paths(base: &str, tail: &str) -> (out: String)
    ensures
        out@ == join_path(base@, tail@),
{
    let b = chars_of(base);
    let t = chars_of(tail);
    if t.len() > 0 && t[0] == '/' {
        let out = string_of(&t, 0, t.len());
        proof {
            assert(t@.subrange(0, t@.len() as int) =~= t@);
        }
        out
    } else {
        let mut out = string_of(&b, 0, b.len());
        proof {
            assert(b@.subrange(0, b@.len() as int) =~= b@);
        }
        if b.len() > 0 && b[b.len() - 1] != '/' {
            out.push('/');
        }
        out.append(tail);
        out
    }
}

/// The texts of a list of strings, in order.
pub open spec fn texts(list: Seq<String>) -> Seq<Seq<char>> {
    list.map_values(|s: String| s@)
}

/// A copy of `list`.
pub fn clone_texts(list: &Vec<String>) -> (out: Vec<String>)
    ensures
        out@ == list@,
{
    let mut out: Vec<String> = Vec::new();
    let mut i: usize = 0;
    while i < list.len()
        invariant
            i <= list.len(),
            out@ == list@.take(i as int),
        decreases list.len() - i,
    {
        proof {
            assert(list@.take(i as int).push(list@[i as int]) =~= list@.take(i as int + 1));
        }
        out.push(list[i].clone());
        i += 1;
    }
    proof {
        assert(list@.take(list@.len() as int) =~= list@);
    }
    out
}

/// Whether `needle` is one of `list`.
pub fn contains_text(list: &Vec<String>, needle: &String) -> (r: bool)
    ensures
        r == texts(list@).contains(needle@),
{
    let mut i: usize = 0;
    while i < list.len()
        invariant
            i <= list.len(),
            forall|j: int| 0 <= j < i ==> texts(list@)[j] != needle@,
        decreases list.len() - i,
    {
        if list[i] == *needle {
            assert(texts(list@)[i as int] == needle@);
            return true;
        }
        i += 1;
    }
    false
}

/// The character that writes the decimal digit `d`.
pub open spec fn digit_char(d: int) -> char {
    if d == 0 {
        '0'
    } else if d == 1 {
        '1'
    } else if d == 2 {
        '2'
    } else if d == 3 {
        '3'
    } else if d == 4 {
        '4'
    } else if d == 5 {
        '5'
    } else if d == 6 {
        '6'
    } else if d == 7 {
        '7'
    } else if d == 8 {
        '8'
    } else {
        '9'
    }
}

/// `n` written in decimal, without sign or leading zeros.
pub open spec fn decimal(n: nat) -> Seq<char>
    decreases n,
{
    if n < 10 {
        seq![digit_char(n as int)]
    } else {
        decimal(n / 10).push(digit_char((n % 10) as int))
    }
}

fn digit_of(d: u64) -> (c: char)
    requires
        d < 10,
    ensures
        c == digit_char(d as int),
{
    if d == 0 {
        '0'
    } else if d == 1 {
        '1'
    } else if d == 2 {
        '2'
    } else if d == 3 {
        '3'
    } else if d == 4 {
        '4'
    } else if d == 5 {
        '5'
    } else if d == 6 {
        '6'
    } else if d == 7 {
        '7'
    } else if d == 8 {
        '8'
    } else {
        '9'
    }
}

/// Writes `n` in decimal.
pub fn decimal_of(n: u64) -> (out: String)
    ensures
        out@ == decimal(n as nat),
{
    let mut digits: Vec<char> = Vec::new();
    let mut m: u64 = n;
    proof {
        assert(decimal(m as nat) + digits@.reverse() =~= decimal(n as nat));
    }
    while m >= 10
        invariant
            decimal(n as nat) == decimal(m as nat) + digits@.reverse(),
        decreases m,
    {
        let d = digit_of(m % 10);
        proof {
            assert(digits@.push(d).reverse() =~= seq![d] + digits@.reverse());
            assert(decimal((m / 10) as nat).push(d) + digits@.reverse() =~= decimal(
                (m / 10) as nat,
            ) + (seq![d] + digits@.reverse()));
        }
        digits.push(d);
        m = m / 10;
    }
    let d = digit_of(m);
    proof {
        assert(digits@.push(d).reverse() =~= seq![d] + digits@.reverse());
    }
    digits.push(d);
    let ghost whole = digits@.reverse();
    let mut out = String::new();
    let mut i: usize = digits.len();
    while i > 0
        invariant
            i <= digits.len(),
            whole == digits@.reverse(),
            out@ == whole.take(digits.len() - i),
        decreases i,
    {
        i -= 1;
        proof {
            assert(whole.take(digits.len() - i) =~= whole.take(digits.len() - i - 1).push(
                digits@[i as int],
            ));
        }
        out.push(digits[i]);
    }
    proof {
        assert(whole.take(digits.len() as int) =~= whole);
    }
    out
}

/// Where the last component of a `\`-separated path starts: just after the
/// last `\`, or at 0 where there is none.
pub open spec fn last_component_start(s: Seq<char>) -> nat
    decreases s.len(),
{
    if s.len() == 0 {
        0
    } else if s.last() == '\\' {
        s.len()
    } else {
        last_component_start(s.drop_last())
    }
}

/// What follows the last `\` of `s`; all of `s` where it holds none.
pub open spec fn last_component(s: Seq<char>) -> Seq<char> {
    s.skip(last_component_start(s) as int)
}

/// The start of the last component is the one index `k` with a `\` just
/// before it, unless it is 0, and none from it on.
pub proof fn lemma_last_component_start(s: Seq<char>, k: int)
    requires
        0 <= k <= s.len(),
        k > 0 ==> s[k - 1] == '\\',
        forall|i: int| k <= i < s.len() ==> #[trigger] s[i] != '\\',
    ensures
        last_component_start(s) == k,
    decreases s.len(),
{
    if s.len() > 0 && s.last() != '\\' {
        assert(k < s.len());
        lemma_last_component_start(s.drop_last(), k);
    }
}

/// The index at which the last component of `v` starts.
pub fn find_last_component(v: &Vec<char>) -> (k: usize)
    ensures
        k <= v.len(),
        k == last_component_start(v@),
{
    let mut k: usize = v.len();
    while k > 0 && v[k - 1] != '\\'
        invariant
            k <= v.len(),
            forall|i: int| k <= i < v.len() ==> #[trigger] v@[i] != '\\',
        decreases k,
    {
        k -= 1;
    }
    proof {
        lemma_last_component_start(v@, k as int);
    }
    k
}

/// Whether `v` starts with `prefix`.
pub fn starts_with_chars(v: &Vec<char>, prefix: &Vec<char>) -> (r: bool)
    ensures
        r == prefix@.is_prefix_of(v@),
{
    if prefix.len() > v.len() {
        return false;
    }
    let mut i: usize = 0;
    while i < prefix.len()
        invariant
            i <= prefix.len() <= v.len(),
            forall|j: int| 0 <= j < i ==> prefix@[j] == v@[j],
        decreases prefix.len() - i,
    {
        if prefix[i] != v[i] {
            assert(!prefix@.is_prefix_of(v@)) by {
                if prefix@.is_prefix_of(v@) {
                    assert(v@.subrange(0, prefix@.len() as int)[i as int] == prefix@[i as int]);
                }
            }
            return false;
        }
        i += 1;
    }
    assert(prefix@ =~= v@.subrange(0, prefix@.len() as int));
    true
}

/// `path` with `prefix` at its front exchanged for `with`; `path` itself
/// where it does not start with `prefix`.
pub open spec fn replace_prefix(path: Seq<char>, prefix: Seq<char>, with: Seq<char>) -> Seq<char> {
    if prefix.is_prefix_of(path) {
        with + path.skip(prefix.len() as int)
    } else {
        path
    }
}

/// Exchanges `prefix` at the front of `path` for `with`.
pub fn replace_path_prefix(path: &str, prefix: &str, with: &str) -> (out: String)
    ensures
        out@ == replace_prefix(path@, prefix@, with@),
{
    let v = chars_of(path);
    let p = chars_of(prefix);
    if starts_with_chars(&v, &p) {
        let rest = string_of(&v, p.len(), v.len());
        proof {
            assert(v@.subrange(p@.len() as int, v@.len() as int) =~= v@.skip(p@.len() as int));
        }
        let mut out = with.to_owned();
        out.append(rest.as_str());
        out
    } else {
        path.to_owned()
    }
}

/// How many characters stand at the front of `s` before its first `\`.
pub open spec fn run_length(s: Seq<char>) -> nat
    decreases s.len(),
{
    if s.len() == 0 || s[0] == '\\' {
        0
    } else {
        1 + run_length(s.skip(1))
    }
}

/// The first run ends within `s`, and is not empty where `s` starts with a
/// character other than `\`.
pub proof fn lemma_run_length_bounds(s: Seq<char>)
    ensures
        run_length(s) <= s.len(),
        s.len() > 0 && s[0] != '\\' ==> run_length(s) >= 1,
    decreases s.len(),
{
    if s.len() > 0 && s[0] != '\\' {
        lemma_run_length_bounds(s.skip(1));
    }
}

/// The components of a `\`-separated path: its maximal runs of characters
/// other than `\`, in order. Empty components do not count.
pub open spec fn components(s: Seq<char>) -> Seq<Seq<char>>
    decreases s.len(),
{
    if s.len() == 0 {
        Seq::empty()
    } else if s[0] == '\\' {
        components(s.skip(1))
    } else {
        proof {
            lemma_run_length_bounds(s);
        }
        seq![s.take(run_length(s) as int)] + components(s.skip(run_length(s) as int))
    }
}

/// The length of the first run is the one index `k` with no `\` before it
/// and a `\`, or the end, at it.
pub proof fn lemma_run_length(s: Seq<char>, k: int)
    requires
        0 <= k <= s.len(),
        forall|i: int| 0 <= i < k ==> #[trigger] s[i] != '\\',
        k < s.len() ==> s[k] == '\\',
    ensures
        run_length(s) == k,
    decreases s.len(),
{
    if s.len() > 0 && s[0] != '\\' {
        let t = s.skip(1);
        assert forall|i: int| 0 <= i < k - 1 implies #[trigger] t[i] != '\\' by {
            assert(t[i] == s[i + 1]);
        }
        lemma_run_length(t, k - 1);
    }
}

/// A path has no component exactly when it holds nothing but `\`.
pub proof fn lemma_no_components(s: Seq<char>)
    ensures
        components(s).len() == 0 <==> forall|i: int| 0 <= i < s.len() ==> #[trigger] s[i] == '\\',
    decreases s.len(),
{
    if s.len() > 0 {
        if s[0] == '\\' {
            let t = s.skip(1);
            lemma_no_components(t);
            if components(t).len() == 0 {
                assert forall|i: int| 0 <= i < s.len() implies #[trigger] s[i] == '\\' by {
                    if i > 0 {
                        assert(s[i] == t[i - 1]);
                    }
                }
            } else {
                let i = choose|i: int| 0 <= i < t.len() && #[trigger] t[i] != '\\';
                assert(s[i + 1] == t[i]);
            }
        } else {
            assert(s[0] != '\\');
        }
    }
}

/// Splits a path at each `\`, dropping empty components.
pub fn split_components(path: &str) -> (out: Vec<String>)
    ensures
        texts(out@) == components(path@),
{
    let v = chars_of(path);
    let mut out: Vec<String> = Vec::new();
    let mut i: usize = 0;
    proof {
        assert(v@.skip(0) =~= v@);
        assert(texts(out@) + components(v@.skip(0)) =~= components(v@));
    }
    while i < v.len()
        invariant
            i <= v.len(),
            texts(out@) + components(v@.skip(i as int)) == components(v@),
        decreases v.len() - i,
    {
        let ghost rest = v@.skip(i as int);
        if v[i] == '\\' {
            proof {
                assert(rest[0] == '\\');
                assert(rest.skip(1) =~= v@.skip(i as int + 1));
            }
            i += 1;
        } else {
            let mut j: usize = i + 1;
            while j < v.len() && v[j] != '\\'
                invariant
                    i < j <= v.len(),
                    forall|k: int| i <= k < j ==> #[trigger] v@[k] != '\\',
                decreases v.len() - j,
            {
                j += 1;
            }
            let piece = string_of(&v, i, j);
            proof {
                assert forall|k: int| 0 <= k < j - i implies #[trigger] rest[k] != '\\' by {
                    assert(rest[k] == v@[i + k]);
                }
                lemma_run_length(rest, j - i);
                assert(rest.take(j - i) =~= v@.subrange(i as int, j as int));
                assert(rest.skip(j - i) =~= v@.skip(j as int));
                assert(texts(out@.push(piece)) =~= texts(out@).push(piece@));
                assert(texts(out@).push(piece@) + components(v@.skip(j as int)) =~= texts(out@) + (
                seq![piece@] + components(v@.skip(j as int))));
            }
            out.push(piece);
            i = j;
        }
    }
    proof {
        assert(texts(out@) + Seq::<Seq<char>>::empty() =~= texts(out@));
    }
    out
}

/// `s` with every occurrence of `pattern` taken out, found from the left
/// and never overlapping. An empty pattern occurs nowhere.
pub open spec fn remove_all(s: Seq<char>, pattern: Seq<char>) -> Seq<char>
    decreases s.len(),
{
    if pattern.len() == 0 || s.len() < pattern.len() {
        s
    } else if pattern.is_prefix_of(s) {
        remove_all(s.skip(pattern.len() as int), pattern)
    } else {
        seq![s[0]] + remove_all(s.skip(1), pattern)
    }
}

/// Whether `pattern` stands in `v` at index `at`.
fn matches_at(v: &Vec<char>, at: usize, pattern: &Vec<char>) -> (r: bool)
    requires
        at <= v.len(),
    ensures
        r == pattern@.is_prefix_of(v@.skip(at as int)),
{
    let ghost rest = v@.skip(at as int);
    if pattern.len() > v.len() - at {
        return false;
    }
    let mut i: usize = 0;
    while i < pattern.len()
        invariant
            i <= pattern.len() <= v.len() - at,
            rest == v@.skip(at as int),
            forall|j: int| 0 <= j < i ==> pattern@[j] == rest[j],
        decreases pattern.len() - i,
    {
        if pattern[i] != v[at + i] {
            assert(rest[i as int] == v@[at + i]);
            assert(!pattern@.is_prefix_of(rest)) by {
                if pattern@.is_prefix_of(rest) {
                    assert(rest.subrange(0, pattern@.len() as int)[i as int] == pattern@[i as int]);
                }
            }
            return false;
        }
        assert(rest[i as int] == v@[at + i]);
        i += 1;
    }
    assert(pattern@ =~= rest.subrange(0, pattern@.len() as int));
    true
}

/// Takes every occurrence of `pattern` out of `text`.
pub fn remove_occurrences(text: &str, pattern: &str) -> (out: String)
    ensures
        out@ == remove_all(text@, pattern@),
{
    let v = chars_of(text);
    let p = chars_of(pattern);
    if p.len() == 0 {
        return text.to_owned();
    }
    let mut kept: Vec<char> = Vec::new();
    let mut i: usize = 0;
    proof {
        assert(v@.skip(0) =~= v@);
        assert(kept@ + remove_all(v@.skip(0), p@) =~= remove_all(v@, p@));
    }
    while i < v.len()
        invariant
            i <= v.len(),
            p@.len() > 0,
            kept@ + remove_all(v@.skip(i as int), p@) == remove_all(v@, p@),
        decreases v.len() - i,
    {
        let ghost rest = v@.skip(i as int);
        if matches_at(&v, i, &p) {
            proof {
                assert(rest.skip(p@.len() as int) =~= v@.skip(i as int + p@.len() as int));
            }
            i += p.len();
        } else {
            proof {
                assert(rest[0] == v@[i as int]);
                assert(rest.skip(1) =~= v@.skip(i as int + 1));
                if rest.len() < p@.len() {
                    assert(remove_all(rest.skip(1), p@) == rest.skip(1));
                    assert(rest =~= seq![rest[0]] + rest.skip(1));
                }
                assert(kept@.push(v@[i as int]) + remove_all(rest.skip(1), p@) =~= kept@ + (
                seq![rest[0]] + remove_all(rest.skip(1), p@)));
            }
            kept.push(v[i]);
            i += 1;
        }
    }
    proof {
        assert(kept@ + Seq::<char>::empty() =~= kept@);
        assert(kept@.subrange(0, kept@.len() as int) =~= kept@);
    }
    string_of(&kept, 0, kept.len())
}

/// The index of the first of `list` that reads `needle`.
pub fn find_text(list: &Vec<String>, needle: &String) -> (r: Option<usize>)
    ensures
        match r {
            Some(i) => i < list@.len() && texts(list@).index_of_first(needle@) == Some(i as int)
                && texts(list@)[i as int] == needle@,
            None => !texts(list@).contains(needle@),
        },
{
    let mut i: usize = 0;
    while i < list.len()
        invariant
            i <= list.len(),
            forall|j: int| 0 <= j < i ==> texts(list@)[j] != needle@,
        decreases list.len() - i,
    {
        if list[i] == *needle {
            proof {
                assert(texts(list@)[i as int] == needle@);
                texts(list@).index_of_first_ensures(needle@);
            }
            return Some(i);
        }
        i += 1;
    }
    None
}

} // verus!
