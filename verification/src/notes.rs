//! Release notes: their lines, the tokens of a line, and the hash that the
//! notes publish for the installer.

use crate::text::{
    chars_of, contains_chars, has_substring, is_run_before, is_whitespace, lemma_run_before,
    run_before, scan, CharClass,
};
use vstd::prelude::*;

verus! {

/// The lines of `s`: what stands between its line feeds. A text without a
/// line feed is one line, and a text that ends in a line feed has an empty
/// last line.
pub open spec fn lines(s: Seq<char>) -> Seq<Seq<char>>
    decreases s.len(),
{
    let n = run_before(s, CharClass::LineFeed) as int;
    if n >= s.len() {
        seq![s]
    } else {
        seq![s.take(n)] + lines(s.skip(n + 1))
    }
}

/// The tokens of `s`: its maximal runs of characters that are not white
/// space, in order.
pub open spec fn tokens(s: Seq<char>) -> Seq<Seq<char>>
    decreases s.len(),
    via tokens_decreases
{
    let a = run_before(s, CharClass::Ink) as int;
    let b = a + run_before(s.skip(a), CharClass::Space);
    if a >= s.len() {
        Seq::empty()
    } else {
        seq![s.subrange(a, b)] + tokens(s.skip(b))
    }
}

#[via_fn]
proof fn tokens_decreases(s: Seq<char>) {
    let a = run_before(s, CharClass::Ink) as int;
    if a < s.len() {
        lemma_first_token(s);
    }
}

/// Where `s` is not all white space, its first token is not empty and lies
/// within `s`.
pub proof fn lemma_first_token(s: Seq<char>)
    requires
        run_before(s, CharClass::Ink) < s.len(),
    ensures
        ({
            let a = run_before(s, CharClass::Ink) as int;
            let b = a + run_before(s.skip(a), CharClass::Space);
            &&& 0 <= a < b <= s.len()
            &&& forall|i: int| a <= i < b ==> !is_whitespace(#[trigger] s[i])
        }),
{
    let a = run_before(s, CharClass::Ink) as int;
    let rest = s.skip(a);
    let n = run_before(rest, CharClass::Space) as int;
    lemma_run_before(s, CharClass::Ink);
    lemma_run_before(rest, CharClass::Space);
    assert(rest[0] == s[a]);
    assert forall|i: int| a <= i < a + n implies !is_whitespace(#[trigger] s[i]) by {
        assert(rest[i - a] == s[i]);
    }
}

/// Whether `name` holds both `product` and `extension` as substrings.
pub open spec fn names_installer(name: Seq<char>, product: Seq<char>, extension: Seq<char>) -> bool {
    has_substring(name, product) && has_substring(name, extension)
}

/// Whether `line` lists the installer: it has at least two tokens, and the
/// second one names the installer.
pub open spec fn lists_installer(line: Seq<char>, product: Seq<char>, extension: Seq<char>) -> bool {
    let t = tokens(line);
    t.len() >= 2 && names_installer(t[1], product, extension)
}

/// The first token of the last of the lines `ls` that lists the installer;
/// `None` where no line does.
pub open spec fn last_listed(ls: Seq<Seq<char>>, product: Seq<char>, extension: Seq<char>) -> Option<
    Seq<char>,
>
    decreases ls.len(),
{
    if ls.len() == 0 {
        None
    } else if lists_installer(ls.last(), product, extension) {
        Some(tokens(ls.last())[0])
    } else {
        last_listed(ls.drop_last(), product, extension)
    }
}

/// The hash that `notes` publish for the installer: the first token of the
/// last line whose second token names it.
pub open spec fn published_hash(notes: Seq<char>, product: Seq<char>, extension: Seq<char>) -> Option<
    Seq<char>,
> {
    last_listed(lines(notes), product, extension)
}

/// The lines of two texts joined by a line feed are the lines of the first
/// followed by the lines of the second.
pub proof fn lemma_lines_join(a: Seq<char>, b: Seq<char>)
    ensures
        lines(a + seq!['\n'] + b) == lines(a) + lines(b),
    decreases a.len(),
{
    let s = a + seq!['\n'] + b;
    let n = run_before(a, CharClass::LineFeed) as int;
    lemma_run_before(a, CharClass::LineFeed);
    assert forall|i: int| 0 <= i < n implies !CharClass::LineFeed.has(#[trigger] s[i]) by {
        assert(s[i] == a[i]);
    }
    if n >= a.len() {
        assert(s[n] == '\n');
    } else {
        assert(s[n] == a[n]);
    }
    assert(is_run_before(s, CharClass::LineFeed, n));
    lemma_run_before(s, CharClass::LineFeed);
    assert(s.take(n) =~= a.take(n));
    if n >= a.len() {
        assert(a.take(n) =~= a);
        assert(s.skip(n + 1) =~= b);
    } else {
        let rest = a.skip(n + 1);
        assert(s.skip(n + 1) =~= rest + seq!['\n'] + b);
        lemma_lines_join(rest, b);
        assert(seq![a.take(n)] + (lines(rest) + lines(b)) =~= (seq![a.take(n)] + lines(rest))
            + lines(b));
    }
}

/// Whether no character of `s` is white space.
pub open spec fn is_solid(s: Seq<char>) -> bool {
    forall|i: int| 0 <= i < s.len() ==> !is_whitespace(#[trigger] s[i])
}

/// Every token is solid and not empty.
pub proof fn lemma_tokens_solid(s: Seq<char>)
    ensures
        forall|i: int|
            0 <= i < tokens(s).len() ==> (#[trigger] tokens(s)[i]).len() > 0 && is_solid(
                tokens(s)[i],
            ),
    decreases s.len(),
{
    let a = run_before(s, CharClass::Ink) as int;
    if a < s.len() {
        let b = a + run_before(s.skip(a), CharClass::Space);
        lemma_first_token(s);
        lemma_tokens_solid(s.skip(b));
        let first = s.subrange(a, b);
        let rest = tokens(s.skip(b));
        assert forall|j: int| 0 <= j < first.len() implies !is_whitespace(#[trigger] first[j]) by {
            assert(first[j] == s[a + j]);
        }
        assert forall|i: int| 0 <= i < tokens(s).len() implies (#[trigger] tokens(s)[i]).len() > 0
            && is_solid(tokens(s)[i]) by {
            if i > 0 {
                assert(tokens(s)[i] == rest[i - 1]);
            }
        }
    }
}

/// A text that starts with the solid, non-empty `word`, followed by white
/// space or by nothing, has `word` as its first token; its other tokens are
/// those of what follows `word`.
pub proof fn lemma_tokens_after_word(word: Seq<char>, rest: Seq<char>)
    requires
        word.len() > 0,
        is_solid(word),
        rest.len() > 0 ==> is_whitespace(rest[0]),
    ensures
        tokens(word + rest) == seq![word] + tokens(rest),
{
    let s = word + rest;
    assert(s[0] == word[0]);
    assert(is_run_before(s, CharClass::Ink, 0));
    lemma_run_before(s, CharClass::Ink);
    assert(s.skip(0) =~= s);
    assert forall|i: int| 0 <= i < word.len() implies !CharClass::Space.has(#[trigger] s[i]) by {
        assert(s[i] == word[i]);
    }
    if rest.len() > 0 {
        assert(s[word.len() as int] == rest[0]);
    }
    assert(is_run_before(s, CharClass::Space, word.len() as int));
    lemma_run_before(s, CharClass::Space);
    assert(s.subrange(0, word.len() as int) =~= word);
    assert(s.skip(word.len() as int) =~= rest);
}

/// White space in front of a text adds no token.
pub proof fn lemma_tokens_after_space(c: char, rest: Seq<char>)
    requires
        is_whitespace(c),
    ensures
        tokens(seq![c] + rest) == tokens(rest),
{
    let s = seq![c] + rest;
    let a = run_before(s, CharClass::Ink) as int;
    let ra = run_before(rest, CharClass::Ink) as int;
    lemma_run_before(s, CharClass::Ink);
    lemma_run_before(rest, CharClass::Ink);
    assert(s.drop_first() =~= rest);
    assert(s[0] == c);
    assert(a == ra + 1);
    if ra < rest.len() {
        assert(s.skip(a) =~= rest.skip(ra));
        let b = a + run_before(s.skip(a), CharClass::Space);
        let rb = ra + run_before(rest.skip(ra), CharClass::Space);
        lemma_first_token(rest);
        assert(s.subrange(a, b) =~= rest.subrange(ra, rb));
        assert(s.skip(b) =~= rest.skip(rb));
    }
}

/// The line made of a hash, one blank and a file name, both solid and not
/// empty, has exactly these two as its tokens.
pub proof fn lemma_tokens_of_listing(hash: Seq<char>, file: Seq<char>)
    requires
        hash.len() > 0,
        file.len() > 0,
        is_solid(hash),
        is_solid(file),
    ensures
        tokens(hash + seq![' '] + file) == seq![hash, file],
{
    let tail = seq![' '] + file;
    let none = Seq::<char>::empty();
    assert(tail[0] == ' ');
    assert(hash + seq![' '] + file =~= hash + tail);
    lemma_tokens_after_word(hash, tail);
    lemma_tokens_after_space(' ', file);
    assert(file + none =~= file);
    lemma_tokens_after_word(file, none);
    assert(tokens(none) =~= Seq::<Seq<char>>::empty());
    assert(seq![hash] + (seq![file] + Seq::<Seq<char>>::empty()) =~= seq![hash, file]);
}

/// Among the lines `ls`, the last one that lists the installer decides:
/// its first token is the hash.
pub proof fn lemma_last_listing_wins(
    ls: Seq<Seq<char>>,
    product: Seq<char>,
    extension: Seq<char>,
    k: int,
)
    requires
        0 <= k < ls.len(),
        lists_installer(ls[k], product, extension),
        forall|j: int| k < j < ls.len() ==> !lists_installer(#[trigger] ls[j], product, extension),
    ensures
        last_listed(ls, product, extension) == Some(tokens(ls[k])[0]),
    decreases ls.len(),
{
    if k < ls.len() - 1 {
        let front = ls.drop_last();
        assert(front[k] == ls[k]);
        assert forall|j: int| k < j < front.len() implies !lists_installer(
            #[trigger] front[j],
            product,
            extension,
        ) by {
            assert(front[j] == ls[j]);
        }
        lemma_last_listing_wins(front, product, extension, k);
    }
}

/// Lines of which none lists the installer give no hash, and only such
/// lines give none.
pub proof fn lemma_none_listed(ls: Seq<Seq<char>>, product: Seq<char>, extension: Seq<char>)
    ensures
        last_listed(ls, product, extension) is None <==> forall|i: int|
            0 <= i < ls.len() ==> !lists_installer(#[trigger] ls[i], product, extension),
    decreases ls.len(),
{
    if ls.len() > 0 && !lists_installer(ls.last(), product, extension) {
        let front = ls.drop_last();
        lemma_none_listed(front, product, extension);
        if last_listed(front, product, extension) is None {
            assert forall|i: int| 0 <= i < ls.len() implies !lists_installer(
                #[trigger] ls[i],
                product,
                extension,
            ) by {
                if i < front.len() {
                    assert(front[i] == ls[i]);
                }
            }
        } else {
            let i = choose|i: int|
                0 <= i < front.len() && lists_installer(#[trigger] front[i], product, extension);
            assert(ls[i] == front[i]);
        }
    }
}

/// A hash that lines give is solid and not empty.
pub proof fn lemma_listed_solid(ls: Seq<Seq<char>>, product: Seq<char>, extension: Seq<char>)
    ensures
        last_listed(ls, product, extension) matches Some(hash) ==> hash.len() > 0 && is_solid(hash),
    decreases ls.len(),
{
    if ls.len() > 0 {
        if lists_installer(ls.last(), product, extension) {
            lemma_tokens_solid(ls.last());
        } else {
            lemma_listed_solid(ls.drop_last(), product, extension);
        }
    }
}

/// A published hash is solid and not empty.
pub proof fn lemma_published_hash_solid(notes: Seq<char>, product: Seq<char>, extension: Seq<char>)
    ensures
        published_hash(notes, product, extension) matches Some(hash) ==> hash.len() > 0
            && is_solid(hash),
{
    lemma_listed_solid(lines(notes), product, extension);
}

/// Notes of which no line lists the installer publish no hash, and only
/// such notes publish none.
pub proof fn lemma_no_listing_no_hash(notes: Seq<char>, product: Seq<char>, extension: Seq<char>)
    ensures
        published_hash(notes, product, extension) is None <==> forall|i: int|
            0 <= i < lines(notes).len() ==> !lists_installer(
                #[trigger] lines(notes)[i],
                product,
                extension,
            ),
{
    lemma_none_listed(lines(notes), product, extension);
}

/// Where a line of the notes reads `hash`, one blank, `file`, both solid and
/// not empty, where `file` names the installer and no later line lists it,
/// the notes publish `hash`.
pub proof fn lemma_listed_hash_is_published(
    notes: Seq<char>,
    product: Seq<char>,
    extension: Seq<char>,
    k: int,
    hash: Seq<char>,
    file: Seq<char>,
)
    requires
        0 <= k < lines(notes).len(),
        lines(notes)[k] == hash + seq![' '] + file,
        hash.len() > 0,
        file.len() > 0,
        is_solid(hash),
        is_solid(file),
        names_installer(file, product, extension),
        forall|j: int|
            k < j < lines(notes).len() ==> !lists_installer(
                #[trigger] lines(notes)[j],
                product,
                extension,
            ),
    ensures
        published_hash(notes, product, extension) == Some(hash),
{
    lemma_tokens_of_listing(hash, file);
    lemma_last_listing_wins(lines(notes), product, extension, k);
}

/// The first token of `s[from..]`, as the indices in `s` of its first
/// character and of the end; `None` where only white space is left.
fn next_token(s: &[char], from: usize) -> (r: Option<(usize, usize)>)
    requires
        from <= s.len(),
    ensures
        match r {
            None => tokens(s@.skip(from as int)) == Seq::<Seq<char>>::empty(),
            Some((a, b)) => {
                &&& from <= a < b <= s.len()
                &&& tokens(s@.skip(from as int)) == seq![s@.subrange(a as int, b as int)] + tokens(
                    s@.skip(b as int),
                )
            },
        },
{
    let a = scan(s, from, CharClass::Ink);
    if a >= s.len() {
        return None;
    }
    let b = scan(s, a, CharClass::Space);
    proof {
        let t = s@.skip(from as int);
        assert(t.skip(a - from) =~= s@.skip(a as int));
        lemma_first_token(t);
        assert(t.subrange(a - from, b - from) =~= s@.subrange(a as int, b as int));
        assert(t.skip(b - from) =~= s@.skip(b as int));
    }
    Some((a, b))
}

/// The hash that `line` gives for the installer, as the indices in `line` of
/// its first character and of its end; `None` where `line` does not list the
/// installer.
fn listed_hash(line: &[char], product: &[char], extension: &[char]) -> (r: Option<(usize, usize)>)
    ensures
        match r {
            None => !lists_installer(line@, product@, extension@),
            Some((a, b)) => {
                &&& lists_installer(line@, product@, extension@)
                &&& a <= b <= line.len()
                &&& tokens(line@)[0] == line@.subrange(a as int, b as int)
            },
        },
{
    assert(line@.skip(0) =~= line@);
    let first = match next_token(line, 0) {
        None => {
            return None;
        },
        Some(span) => span,
    };
    let ghost hash = line@.subrange(first.0 as int, first.1 as int);
    let ghost after = tokens(line@.skip(first.1 as int));
    assert(tokens(line@) == seq![hash] + after);
    let second = match next_token(line, first.1) {
        None => {
            assert(tokens(line@).len() == 1);
            return None;
        },
        Some(span) => span,
    };
    let name = vstd::slice::slice_subrange(line, second.0, second.1);
    assert(after[0] == name@);
    assert(tokens(line@).len() >= 2);
    assert(tokens(line@)[0] == hash);
    assert(tokens(line@)[1] == name@);
    if contains_chars(name, product) && contains_chars(name, extension) {
        Some(first)
    } else {
        None
    }
}

/// Reads from `notes` the hash published for the installer: the lines are
/// taken one by one, and the last line whose second token holds both
/// `product_name` and `extension` gives its first token. `None` where no
/// line lists the installer.
pub fn extract_published_hash(notes: &str, product_name: &str, extension: &str) -> (r: Option<
    String,
>)
    ensures
        match r {
            Some(hash) => published_hash(notes@, product_name@, extension@) == Some(hash@),
            None => published_hash(notes@, product_name@, extension@) is None,
        },
{
    let text = chars_of(notes);
    let product = chars_of(product_name);
    let ext = chars_of(extension);
    let s = text.as_slice();
    let mut found: Option<(usize, usize)> = None;
    let mut pos: usize = 0;
    let ghost mut done: Seq<Seq<char>> = Seq::empty();
    assert(s@.skip(0) =~= s@);
    loop
        invariant_except_break
            pos <= s.len(),
            lines(s@) == done + lines(s@.skip(pos as int)),
        invariant
            s@ == notes@,
            product@ == product_name@,
            ext@ == extension@,
            match found {
                None => last_listed(done, product@, ext@) is None,
                Some((a, b)) => a <= b <= s.len() && last_listed(done, product@, ext@) == Some(
                    s@.subrange(a as int, b as int),
                ),
            },
        ensures
            lines(s@) == done,
        decreases s.len() - pos,
    {
        let end = scan(s, pos, CharClass::LineFeed);
        let line = vstd::slice::slice_subrange(s, pos, end);
        let hit = listed_hash(line, product.as_slice(), ext.as_slice());
        proof {
            let rest = s@.skip(pos as int);
            let next = done.push(line@);
            assert(next.last() == line@);
            assert(next.drop_last() =~= done);
            assert(rest.take(end - pos) =~= line@);
            if end >= s.len() {
                assert(rest =~= line@);
                assert(done + seq![line@] =~= next);
            } else {
                assert(rest.skip(end - pos + 1) =~= s@.skip(end + 1));
                assert(done + (seq![line@] + lines(s@.skip(end + 1))) =~= next + lines(
                    s@.skip(end + 1),
                ));
            }
            done = next;
        }
        match hit {
            Some((a, b)) => {
                assert(line@.subrange(a as int, b as int) =~= s@.subrange(pos + a, pos + b));
                found = Some((pos + a, pos + b));
            },
            None => {},
        }
        if end >= s.len() {
            break ;
        }
        pos = end + 1;
    }
    match found {
        None => None,
        Some((a, b)) => Some(notes.substring_char(a, b).to_owned()),
    }
}

} // verus!
