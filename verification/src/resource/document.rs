//! Framing of a definition file: where one document ends and the next
//! begins.

use vstd::prelude::*;
use crate::text::{chars_of, string_of, texts};

verus! {

/// How many characters stand at the front of `s` before its first line
/// feed.
pub open spec fn line_length(s: Seq<char>) -> nat
    decreases s.len(),
{
    if s.len() == 0 || s[0] == '\n' {
        0
    } else {
        1 + line_length(s.skip(1))
    }
}

/// The length of the first line is the one index `k` with no line feed
/// before it and a line feed, or the end, at it.
pub proof fn lemma_line_length(s: Seq<char>, k: int)
    requires
        0 <= k <= s.len(),
        forall|i: int| 0 <= i < k ==> #[trigger] s[i] != '\n',
        k < s.len() ==> s[k] == '\n',
    ensures
        line_length(s) == k,
    decreases s.len(),
{
    if s.len() > 0 && s[0] != '\n' {
        let t = s.skip(1);
        assert forall|i: int| 0 <= i < k - 1 implies #[trigger] t[i] != '\n' by {
            assert(t[i] == s[i + 1]);
        }
        lemma_line_length(t, k - 1);
    }
}

/// The first line ends within `s`.
pub proof fn lemma_line_length_bound(s: Seq<char>)
    ensures
        line_length(s) <= s.len(),
    decreases s.len(),
{
    if s.len() > 0 && s[0] != '\n' {
        lemma_line_length_bound(s.skip(1));
    }
}

/// A line that separates two documents: three hyphens and nothing else,
/// but for a carriage return before the line feed.
pub open spec fn is_marker(line: Seq<char>) -> bool {
    line == seq!['-', '-', '-'] || line == seq!['-', '-', '-', '\r']
}

/// The documents of `s`, the first of which already holds `current`: the
/// lines up to each marker, line feeds included, and the lines after the
/// last marker.
pub open spec fn frames_from(s: Seq<char>, current: Seq<char>) -> Seq<Seq<char>>
    decreases s.len(),
{
    if s.len() == 0 {
        seq![current]
    } else {
        proof {
            lemma_line_length_bound(s);
        }
        let n = line_length(s) as int;
        if n == s.len() {
            if is_marker(s) {
                seq![current, Seq::empty()]
            } else {
                seq![current + s]
            }
        } else if is_marker(s.take(n)) {
            seq![current] + frames_from(s.skip(n + 1), Seq::empty())
        } else {
            frames_from(s.skip(n + 1), current + s.take(n + 1))
        }
    }
}

/// A character that leaves a document empty.
pub open spec fn is_space(c: char) -> bool {
    c == ' ' || c == '\t' || c == '\r' || c == '\n'
}

/// The document holds nothing but spaces, tabs and line ends.
pub open spec fn is_blank(document: Seq<char>) -> bool {
    forall|i: int| 0 <= i < document.len() ==> is_space(#[trigger] document[i])
}

/// The documents of a definition file: what stands between its marker
/// lines, but for the documents that are blank.
pub open spec fn documents(content: Seq<char>) -> Seq<Seq<char>> {
    frames_from(content, Seq::empty()).filter(|d: Seq<char>| !is_blank(d))
}

fn blank(document: &Vec<char>) -> (r: bool)
    ensures
        r == is_blank(document@),
{
    let mut i: usize = 0;
    while i < document.len()
        invariant
            i <= document.len(),
            forall|j: int| 0 <= j < i ==> is_space(#[trigger] document@[j]),
        decreases document.len() - i,
    {
        let c = document[i];
        if !(c == ' ' || c == '\t' || c == '\r' || c == '\n') {
            return false;
        }
        i += 1;
    }
    true
}

fn marker(v: &Vec<char>, from: usize, to: usize) -> (r: bool)
    requires
        from <= to <= v.len(),
    ensures
        r == is_marker(v@.subrange(from as int, to as int)),
{
    let ghost line = v@.subrange(from as int, to as int);
    let ghost three = seq!['-', '-', '-'];
    let ghost four = seq!['-', '-', '-', '\r'];
    proof {
        assert(three.len() == 3 && three[0] == '-' && three[1] == '-' && three[2] == '-');
        assert(four.len() == 4 && four[0] == '-' && four[1] == '-' && four[2] == '-' && four[3]
            == '\r');
    }
    let n = to - from;
    if n == 3 {
        let r = v[from] == '-' && v[from + 1] == '-' && v[from + 2] == '-';
        proof {
            assert(line[0] == v@[from as int]);
            assert(line[1] == v@[from + 1]);
            assert(line[2] == v@[from + 2]);
            if r {
                assert(line =~= seq!['-', '-', '-']);
            }
        }
        r
    } else if n == 4 {
        let r = v[from] == '-' && v[from + 1] == '-' && v[from + 2] == '-' && v[from + 3] == '\r';
        proof {
            assert(line[0] == v@[from as int]);
            assert(line[1] == v@[from + 1]);
            assert(line[2] == v@[from + 2]);
            assert(line[3] == v@[from + 3]);
            if r {
                assert(line =~= seq!['-', '-', '-', '\r']);
            }
        }
        r
    } else {
        false
    }
}

/// Splits a definition file into its documents.
pub fn split_documents(content: &str) -> (out: Vec<String>)
    ensures
        texts(out@) == documents(content@),
{
    let ghost keep = |d: Seq<char>| !is_blank(d);
    let v = chars_of(content);
    let mut out: Vec<String> = Vec::new();
    let mut current: Vec<char> = Vec::new();
    let mut i: usize = 0;
    let ghost mut done: Seq<Seq<char>> = Seq::empty();
    let mut open = true;
    proof {
        assert(v@.skip(0) =~= v@);
        assert(done + frames_from(v@.skip(0), current@) =~= frames_from(v@, Seq::empty()));
        assert(done.filter(keep) =~= Seq::<Seq<char>>::empty()) by {
            done.lemma_filter_len(keep);
        }
    }
    while open
        invariant
            i <= v.len(),
            keep == (|d: Seq<char>| !is_blank(d)),
            texts(out@) == done.filter(keep),
            open ==> done + frames_from(v@.skip(i as int), current@) == frames_from(
                v@,
                Seq::empty(),
            ),
            !open ==> done == frames_from(v@, Seq::empty()),
        decreases v.len() - i + if open { 1nat } else { 0nat },
    {
        let ghost rest = v@.skip(i as int);
        if i == v.len() {
            proof {
                assert(done + seq![current@] =~= done.push(current@));
                done.lemma_filter_push(current@, keep);
                done = done.push(current@);
            }
            if !blank(&current) {
                let piece = string_of(&current, 0, current.len());
                proof {
                    assert(current@.subrange(0, current@.len() as int) =~= current@);
                    assert(texts(out@.push(piece)) =~= texts(out@).push(piece@));
                }
                out.push(piece);
            }
            open = false;
        } else {
            let mut j: usize = i;
            while j < v.len() && v[j] != '\n'
                invariant
                    i <= j <= v.len(),
                    forall|k: int| i <= k < j ==> #[trigger] v@[k] != '\n',
                decreases v.len() - j,
            {
                j += 1;
            }
            proof {
                assert forall|k: int| 0 <= k < j - i implies #[trigger] rest[k] != '\n' by {
                    assert(rest[k] == v@[i + k]);
                }
                if j < v.len() {
                    assert(rest[j - i] == v@[j as int]);
                }
                lemma_line_length(rest, j - i);
                assert(rest.take(j - i) =~= v@.subrange(i as int, j as int));
            }
            let is_sep = marker(&v, i, j);
            if j == v.len() {
                proof {
                    assert(rest.take(j - i) =~= rest);
                }
                if is_sep {
                    proof {
                        assert(done + seq![current@, Seq::<char>::empty()] =~= done.push(
                            current@,
                        ).push(Seq::<char>::empty()));
                        done.lemma_filter_push(current@, keep);
                        done.push(current@).lemma_filter_push(Seq::<char>::empty(), keep);
                        done = done.push(current@).push(Seq::<char>::empty());
                    }
                    if !blank(&current) {
                        let piece = string_of(&current, 0, current.len());
                        proof {
                            assert(current@.subrange(0, current@.len() as int) =~= current@);
                            assert(texts(out@.push(piece)) =~= texts(out@).push(piece@));
                        }
                        out.push(piece);
                    }
                } else {
                    let ghost whole = current@ + rest;
                    let mut k: usize = i;
                    while k < j
                        invariant
                            i <= k <= j,
                            j == v.len(),
                            current@ + v@.subrange(k as int, j as int) == whole,
                        decreases j - k,
                    {
                        proof {
                            assert(current@.push(v@[k as int]) + v@.subrange(k as int + 1, j as int)
                                =~= current@ + v@.subrange(k as int, j as int));
                        }
                        current.push(v[k]);
                        k += 1;
                    }
                    proof {
                        assert(current@ + v@.subrange(j as int, j as int) =~= current@);
                        assert(done + seq![whole] =~= done.push(whole));
                        done.lemma_filter_push(whole, keep);
                        done = done.push(whole);
                    }
                    if !blank(&current) {
                        let piece = string_of(&current, 0, current.len());
                        proof {
                            assert(current@.subrange(0, current@.len() as int) =~= current@);
                            assert(texts(out@.push(piece)) =~= texts(out@).push(piece@));
                        }
                        out.push(piece);
                    }
                }
                i = j;
                open = false;
            } else {
                proof {
                    assert(rest.skip(j - i + 1) =~= v@.skip(j as int + 1));
                }
                if is_sep {
                    proof {
                        assert(done + (seq![current@] + frames_from(
                            v@.skip(j as int + 1),
                            Seq::empty(),
                        )) =~= done.push(current@) + frames_from(
                            v@.skip(j as int + 1),
                            Seq::empty(),
                        ));
                        done.lemma_filter_push(current@, keep);
                        done = done.push(current@);
                    }
                    if !blank(&current) {
                        let piece = string_of(&current, 0, current.len());
                        proof {
                            assert(current@.subrange(0, current@.len() as int) =~= current@);
                            assert(texts(out@.push(piece)) =~= texts(out@).push(piece@));
                        }
                        out.push(piece);
                    }
                    current = Vec::new();
                } else {
                    let ghost whole = current@ + rest.take(j - i + 1);
                    let mut k: usize = i;
                    while k <= j
                        invariant
                            i <= k <= j + 1,
                            j < v.len(),
                            current@ + v@.subrange(k as int, j as int + 1) == whole,
                        decreases j + 1 - k,
                    {
                        proof {
                            assert(current@.push(v@[k as int]) + v@.subrange(
                                k as int + 1,
                                j as int + 1,
                            ) =~= current@ + v@.subrange(k as int, j as int + 1));
                        }
                        current.push(v[k]);
                        k += 1;
                    }
                    proof {
                        assert(rest.take(j - i + 1) =~= v@.subrange(i as int, j as int + 1));
                        assert(current@ + v@.subrange(j as int + 1, j as int + 1) =~= current@);
                    }
                }
                i = j + 1;
            }
        }
    }
    out
}

} // verus!
