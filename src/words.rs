use vstd::prelude::*;

verus! {

/// Drops each character that equals the one before it.
pub open spec fn collapse_runs(s: Seq<char>) -> Seq<char>
    decreases s.len(),
{
    if s.len() <= 1 {
        s
    } else {
        let p = collapse_runs(s.drop_last());
        if s.last() == s[s.len() - 2] {
            p
        } else {
            p.push(s.last())
        }
    }
}

/// `w` stands in `blob` starting at position `i`.
pub open spec fn occurs_at(blob: Seq<char>, w: Seq<char>, i: int) -> bool {
    0 <= i && i + w.len() <= blob.len() && blob.subrange(i, i + w.len()) == w
}

pub open spec fn occurs_in(blob: Seq<char>, w: Seq<char>) -> bool {
    exists|i: int| occurs_at(blob, w, i)
}

/// A cleaned word stays in a list: it loses at most two characters to
/// run-collapsing, has 3 to 9 characters and is no part of the exclusion text.
pub open spec fn keep_word(w: Seq<char>, blob: Seq<char>) -> bool {
    w.len() - collapse_runs(w).len() < 3 && 2 < w.len() && w.len() < 10 && !occurs_in(blob, w)
}

/// The finished lines of `s` and the line still open at its end.
pub open spec fn scan_lines(s: Seq<char>) -> (Seq<Seq<char>>, Seq<char>)
    decreases s.len(),
{
    if s.len() == 0 {
        (seq![], seq![])
    } else {
        let (done, cur) = scan_lines(s.drop_last());
        if s.last() == '\n' {
            (done.push(cur), seq![])
        } else {
            (done, cur.push(s.last()))
        }
    }
}

/// The lines of `s`, split at each newline; a final newline opens no line.
pub open spec fn lines_of(s: Seq<char>) -> Seq<Seq<char>> {
    let (done, cur) = scan_lines(s);
    if cur.len() == 0 {
        done
    } else {
        done.push(cur)
    }
}

/// What `str::trim` returns for the given characters.
pub uninterp spec fn trim_of(s: Seq<char>) -> Seq<char>;

/// What `str::to_lowercase` returns for the given characters.
pub uninterp spec fn lower_of(s: Seq<char>) -> Seq<char>;

/// A raw line after trimming and lowercasing.
pub open spec fn clean(line: Seq<char>) -> Seq<char> {
    lower_of(trim_of(line))
}

/// The cleaned forms of `lines` that pass `keep_word`, in order.
pub open spec fn kept_words(lines: Seq<Seq<char>>, blob: Seq<char>) -> Seq<Seq<char>>
    decreases lines.len(),
{
    if lines.len() == 0 {
        seq![]
    } else {
        let rest = kept_words(lines.drop_last(), blob);
        let w = clean(lines.last());
        if keep_word(w, blob) {
            rest.push(w)
        } else {
            rest
        }
    }
}

pub open spec fn views(v: Seq<String>) -> Seq<Seq<char>> {
    v.map_values(|s: String| s@)
}

/// Relies on str::chars: the characters of the string, in order.
#[verifier::external_body]
fn chars_of(s: &str) -> (r: Vec<char>)
    ensures
        r@ == s@,
{
    s.chars().collect()
}

/// Relies on String::from_iter: the string made of the given characters.
#[verifier::external_body]
pub(crate) fn string_of(v: &Vec<char>) -> (r: String)
    ensures
        r@ == v@,
{
    String::from_iter(v.iter())
}

/// Relies on str::trim: leading and trailing whitespace removed.
#[verifier::external_body]
fn trim_str(s: &str) -> (r: &str)
    ensures
        r@ == trim_of(s@),
{
    s.trim()
}

/// Relies on str::to_lowercase: the lowercase form, which depends on the
/// characters alone.
#[verifier::external_body]
fn lowercase(s: &str) -> (r: String)
    ensures
        r@ == lower_of(s@),
{
    s.to_lowercase()
}

/// Run-collapse on characters.
fn collapse(s: &Vec<char>) -> (r: Vec<char>)
    ensures
        r@ == collapse_runs(s@),
{
    let mut r: Vec<char> = Vec::new();
    let mut i: usize = 0;
    while i < s.len()
        invariant
            i <= s@.len(),
            r@ == collapse_runs(s@.subrange(0, i as int)),
        decreases s@.len() - i,
    {
        let ghost pre = s@.subrange(0, i as int);
        assert(s@.subrange(0, i as int + 1).drop_last() == pre);
        if i == 0 || s[i] != s[i - 1] {
            r.push(s[i]);
        }
        i = i + 1;
    }
    assert(s@.subrange(0, s@.len() as int) == s@);
    r
}

/// The string with each character that equals the one before it removed.
pub fn dedup_runs(s: &str) -> (r: String)
    ensures
        r@ == collapse_runs(s@),
{
    let c = chars_of(s);
    let d = collapse(&c);
    string_of(&d)
}

/// Whether `w` stands anywhere in `blob`.
fn occurs(blob: &Vec<char>, w: &Vec<char>) -> (r: bool)
    ensures
        r == occurs_in(blob@, w@),
{
    if w.len() > blob.len() {
        assert forall|i: int| !occurs_at(blob@, w@, i) by {}
        return false;
    }
    if w.len() == 0 {
        assert(blob@.subrange(0, 0) =~= w@);
        assert(occurs_at(blob@, w@, 0));
        return true;
    }
    let last = blob.len() - w.len();
    let mut i: usize = 0;
    while i <= last
        invariant
            last == blob@.len() - w@.len(),
            0 < w@.len() <= blob@.len() <= usize::MAX,
            i <= last + 1,
            forall|k: int| 0 <= k < i ==> !occurs_at(blob@, w@, k),
        decreases last + 1 - i,
    {
        let mut j: usize = 0;
        let mut same = true;
        while j < w.len() && same
            invariant
                i <= last,
                last == blob@.len() - w@.len(),
                w@.len() <= blob@.len() <= usize::MAX,
                j <= w@.len(),
                same ==> forall|t: int| 0 <= t < j ==> blob@[i + t] == w@[t],
                !same ==> j > 0 && blob@[i + j - 1] != w@[j - 1],
            decreases w@.len() - j + (if same { 1int } else { 0int }),
        {
            assert(i + j < blob@.len());
            if blob[i + j] != w[j] {
                same = false;
            }
            j = j + 1;
        }
        if same {
            assert(blob@.subrange(i as int, i + w@.len()) =~= w@);
            assert(occurs_at(blob@, w@, i as int));
            return true;
        }
        assert(blob@.subrange(i as int, i + w@.len())[j - 1] != w@[j - 1]);
        i = i + 1;
    }
    assert forall|k: int| !occurs_at(blob@, w@, k) by {
        if 0 <= k && k + w@.len() <= blob@.len() {
            assert(k < i);
        }
    }
    false
}

/// Whether a cleaned word passes every rule of the filter.
fn keep(w: &Vec<char>, blob: &Vec<char>) -> (r: bool)
    ensures
        r == keep_word(w@, blob@),
{
    let d = collapse(w);
    proof { lemma_collapse_len(w@); }
    w.len() - d.len() < 3 && 2 < w.len() && w.len() < 10 && !occurs(blob, w)
}

proof fn lemma_collapse_len(s: Seq<char>)
    ensures
        collapse_runs(s).len() <= s.len(),
    decreases s.len(),
{
    if s.len() > 1 {
        lemma_collapse_len(s.drop_last());
    }
}

/// Lines that are already clean and pass every rule come back from the filter
/// unchanged and in the same order.
pub proof fn kept_words_fixed(words: Seq<Seq<char>>, blob: Seq<char>)
    requires
        forall|i: int| 0 <= i < words.len() ==> clean(#[trigger] words[i]) == words[i],
        forall|i: int| 0 <= i < words.len() ==> keep_word(#[trigger] words[i], blob),
    ensures
        kept_words(words, blob) == words,
    decreases words.len(),
{
    if words.len() > 0 {
        let init = words.drop_last();
        assert forall|i: int| 0 <= i < init.len() implies clean(#[trigger] init[i]) == init[i]
            && keep_word(init[i], blob) by {
            assert(init[i] == words[i]);
        }
        kept_words_fixed(init, blob);
        assert(clean(words[words.len() - 1]) == words.last());
        assert(keep_word(words[words.len() - 1], blob));
        assert(init.push(words.last()) =~= words);
    }
}

/// The words written one per line, each followed by a newline.
pub open spec fn joined(words: Seq<Seq<char>>) -> Seq<char>
    decreases words.len(),
{
    if words.len() == 0 {
        seq![]
    } else {
        joined(words.drop_last()) + words.last() + seq!['\n']
    }
}

proof fn lemma_scan_append(s: Seq<char>, t: Seq<char>)
    requires
        !t.contains('\n'),
    ensures
        scan_lines(s + t) == (scan_lines(s).0, scan_lines(s).1 + t),
    decreases t.len(),
{
    if t.len() == 0 {
        assert(s + t =~= s);
        assert(scan_lines(s).1 + t =~= scan_lines(s).1);
    } else {
        let u = t.drop_last();
        assert((s + t).drop_last() =~= s + u);
        assert(!u.contains('\n')) by {
            if u.contains('\n') {
                let k = choose|k: int| 0 <= k < u.len() && u[k] == '\n';
                assert(t[k] == '\n');
            }
        }
        lemma_scan_append(s, u);
        assert((s + t).last() == t.last());
        assert(t.last() != '\n') by {
            assert(t[t.len() - 1] == t.last());
        }
        assert((scan_lines(s).1 + u).push(t.last()) =~= scan_lines(s).1 + t);
    }
}

/// Splitting the joined words at newlines gives the words back, when no word
/// holds a newline.
pub proof fn lines_of_joined(words: Seq<Seq<char>>)
    requires
        forall|i: int| 0 <= i < words.len() ==> !(#[trigger] words[i]).contains('\n'),
    ensures
        scan_lines(joined(words)) == (words, Seq::<char>::empty()),
        lines_of(joined(words)) == words,
    decreases words.len(),
{
    if words.len() > 0 {
        let init = words.drop_last();
        let w = words.last();
        assert forall|i: int| 0 <= i < init.len() implies !(#[trigger] init[i]).contains('\n') by {
            assert(init[i] == words[i]);
        }
        lines_of_joined(init);
        assert(!words[words.len() - 1].contains('\n'));
        let x = joined(init);
        lemma_scan_append(x, w);
        assert(scan_lines(x).1 + w =~= w);
        let all = x + w + seq!['\n'];
        assert(all.drop_last() =~= x + w);
        assert(all.last() == '\n');
        assert(init.push(w) =~= words);
    } else {
        assert(joined(words) =~= Seq::<char>::empty());
    }
}

/// Filtering the filter's own output, written one word per line, gives the
/// same words back, provided trimming and lowercasing leave each of them as
/// it is and none holds a newline.
pub proof fn filter_idempotent(words: Seq<Seq<char>>, blob: Seq<char>)
    requires
        forall|i: int| 0 <= i < words.len() ==> keep_word(#[trigger] words[i], blob),
        forall|i: int| 0 <= i < words.len() ==> clean(#[trigger] words[i]) == words[i],
        forall|i: int| 0 <= i < words.len() ==> !(#[trigger] words[i]).contains('\n'),
    ensures
        kept_words(lines_of(joined(words)), blob) == words,
{
    lines_of_joined(words);
    kept_words_fixed(words, blob);
}

/// Every word that the filter keeps passes every rule.
pub proof fn kept_words_pass(lines: Seq<Seq<char>>, blob: Seq<char>)
    ensures
        forall|i: int| 0 <= i < kept_words(lines, blob).len() ==> keep_word(
            #[trigger] kept_words(lines, blob)[i],
            blob,
        ),
    decreases lines.len(),
{
    if lines.len() > 0 {
        let rest = kept_words(lines.drop_last(), blob);
        kept_words_pass(lines.drop_last(), blob);
        let k = kept_words(lines, blob);
        assert forall|i: int| 0 <= i < k.len() implies keep_word(#[trigger] k[i], blob) by {
            if i < rest.len() {
                assert(k[i] == rest[i]);
            }
        }
    }
}

fn push_if_kept(line: &Vec<char>, blob: &Vec<char>, out: &mut Vec<String>)
    ensures
        views(final(out)@) == (if keep_word(clean(line@), blob@) {
            views(old(out)@).push(clean(line@))
        } else {
            views(old(out)@)
        }),
{
    let s = string_of(line);
    let t = trim_str(s.as_str());
    let low = lowercase(t);
    let w = chars_of(low.as_str());
    if keep(&w, blob) {
        out.push(low);
        assert(views(final(out)@) =~= views(old(out)@).push(clean(line@)));
    }
}

/// The words of `raw`, one per line, trimmed and lowercased, that pass
/// `keep_word` against `exclusion`, in their original order.
pub fn filter(raw: &str, exclusion: &str) -> (r: Vec<String>)
    ensures
        views(r@) == kept_words(lines_of(raw@), exclusion@),
{
    let text = chars_of(raw);
    let blob = chars_of(exclusion);
    let mut out: Vec<String> = Vec::new();
    let mut cur: Vec<char> = Vec::new();
    let mut i: usize = 0;
    while i < text.len()
        invariant
            i <= text@.len(),
            text@ == raw@,
            blob@ == exclusion@,
            views(out@) == kept_words(scan_lines(text@.subrange(0, i as int)).0, blob@),
            cur@ == scan_lines(text@.subrange(0, i as int)).1,
        decreases text@.len() - i,
    {
        let ghost pre = text@.subrange(0, i as int);
        assert(text@.subrange(0, i as int + 1).drop_last() == pre);
        let c = text[i];
        if c == '\n' {
            push_if_kept(&cur, &blob, &mut out);
            proof {
                let done = scan_lines(pre).0;
                assert(done.push(cur@).drop_last() == done);
            }
            cur = Vec::new();
        } else {
            cur.push(c);
        }
        i = i + 1;
    }
    assert(text@.subrange(0, text@.len() as int) == text@);
    if cur.len() > 0 {
        let ghost done = scan_lines(text@).0;
        push_if_kept(&cur, &blob, &mut out);
        assert(done.push(cur@).drop_last() == done);
    }
    out
}

} // verus!
