//! Field renaming rules as serde and schemars spell them in `rename_all`.

use vstd::prelude::*;
use crate::text::{
    all_ascii, ascii_lower, ascii_lowercase, ascii_upper, ascii_uppercase, chars_of, is_ascii_digit, is_ascii_lower, is_ascii_upper, push_char, str_eq,
    string_of, to_ascii_upper, to_lowercase, to_uppercase, unicode_lowercase, unicode_uppercase,
};

verus! {

/// A `rename_all` case convention.
#[derive(Clone, Copy, Debug, PartialEq, Eq, Structural)]
pub enum RenameRule {
    Lower,
    Upper,
    Pascal,
    Camel,
    Snake,
    ScreamingSnake,
    Kebab,
    ScreamingKebab,
}

/// The rule that a `rename_all` value names, if any.
pub open spec fn spec_parse_rename_rule(value: Seq<char>) -> Option<RenameRule> {
    if value == "lowercase"@ {
        Some(RenameRule::Lower)
    } else if value == "UPPERCASE"@ {
        Some(RenameRule::Upper)
    } else if value == "PascalCase"@ {
        Some(RenameRule::Pascal)
    } else if value == "camelCase"@ {
        Some(RenameRule::Camel)
    } else if value == "snake_case"@ {
        Some(RenameRule::Snake)
    } else if value == "SCREAMING_SNAKE_CASE"@ {
        Some(RenameRule::ScreamingSnake)
    } else if value == "kebab-case"@ {
        Some(RenameRule::Kebab)
    } else if value == "SCREAMING-KEBAB-CASE"@ {
        Some(RenameRule::ScreamingKebab)
    } else {
        None
    }
}

/// Reads a `rename_all` value.
pub fn parse_rename_rule(value: &str) -> (r: Option<RenameRule>)
    ensures
        r == spec_parse_rename_rule(value@),
{
    if str_eq(value, "lowercase") {
        Some(RenameRule::Lower)
    } else if str_eq(value, "UPPERCASE") {
        Some(RenameRule::Upper)
    } else if str_eq(value, "PascalCase") {
        Some(RenameRule::Pascal)
    } else if str_eq(value, "camelCase") {
        Some(RenameRule::Camel)
    } else if str_eq(value, "snake_case") {
        Some(RenameRule::Snake)
    } else if str_eq(value, "SCREAMING_SNAKE_CASE") {
        Some(RenameRule::ScreamingSnake)
    } else if str_eq(value, "kebab-case") {
        Some(RenameRule::Kebab)
    } else if str_eq(value, "SCREAMING-KEBAB-CASE") {
        Some(RenameRule::ScreamingKebab)
    } else {
        None
    }
}

/// Characters that separate words in a field name.
pub open spec fn is_word_separator(c: char) -> bool {
    c == '_' || c == '-' || c == ' '
}

/// The state of a left-to-right scan that cuts a name into words.
pub struct SplitState {
    pub words: Seq<Seq<char>>,
    pub current: Seq<char>,
    pub prev_lower_or_digit: bool,
}

/// The words finished so far, with `current` closed if it is not empty.
pub open spec fn close_current(words: Seq<Seq<char>>, current: Seq<char>) -> Seq<Seq<char>> {
    if current.len() > 0 {
        words.push(current)
    } else {
        words
    }
}

/// One character of the scan: separators close the current word, and an
/// uppercase letter right after a lowercase letter or digit starts a new one.
pub open spec fn split_step(st: SplitState, ch: char) -> SplitState {
    if is_word_separator(ch) {
        SplitState {
            words: close_current(st.words, st.current),
            current: Seq::empty(),
            prev_lower_or_digit: false,
        }
    } else if is_ascii_upper(ch) && st.prev_lower_or_digit && st.current.len() > 0 {
        SplitState {
            words: st.words.push(st.current),
            current: seq![ch],
            prev_lower_or_digit: is_ascii_lower(ch) || is_ascii_digit(ch),
        }
    } else {
        SplitState {
            words: st.words,
            current: st.current.push(ch),
            prev_lower_or_digit: is_ascii_lower(ch) || is_ascii_digit(ch),
        }
    }
}

/// The scan state after reading all of `s`.
pub open spec fn split_state(s: Seq<char>) -> SplitState
    decreases s.len(),
{
    if s.len() == 0 {
        SplitState { words: Seq::empty(), current: Seq::empty(), prev_lower_or_digit: false }
    } else {
        split_step(split_state(s.drop_last()), s.last())
    }
}

/// The words of a name, before case folding.
pub open spec fn raw_words(s: Seq<char>) -> Seq<Seq<char>> {
    let st = split_state(s);
    close_current(st.words, st.current)
}

/// The words of a name, each lowercased.
pub open spec fn words_of(s: Seq<char>) -> Seq<Seq<char>> {
    raw_words(s).map_values(|w: Seq<char>| unicode_lowercase(w))
}

/// The words of an ASCII name, each lowercased in ASCII.
pub open spec fn ascii_words_of(s: Seq<char>) -> Seq<Seq<char>> {
    raw_words(s).map_values(|w: Seq<char>| ascii_lowercase(w))
}

proof fn lemma_split_state_ascii(s: Seq<char>)
    requires
        all_ascii(s),
    ensures
        forall|j: int|
            0 <= j < split_state(s).words.len() ==> all_ascii(#[trigger] split_state(s).words[j]),
        all_ascii(split_state(s).current),
    decreases s.len(),
{
    if s.len() > 0 {
        let prev = s.drop_last();
        assert(all_ascii(prev)) by {
            assert forall|k: int| 0 <= k < prev.len() implies (#[trigger] prev[k] as u32) < 128 by {
                assert(prev[k] == s[k]);
            }
        }
        lemma_split_state_ascii(prev);
        let st = split_state(prev);
        let ch = s.last();
        assert((s[s.len() - 1] as u32) < 128);
        assert(all_ascii(st.current.push(ch))) by {
            assert forall|k: int| 0 <= k < st.current.len() + 1 implies (#[trigger] st.current.push(
                ch,
            )[k] as u32) < 128 by {
                if k < st.current.len() {
                    assert(st.current.push(ch)[k] == st.current[k]);
                }
            }
        }
        assert(all_ascii(seq![ch])) by {
            assert forall|k: int| 0 <= k < 1 implies (#[trigger] seq![ch][k] as u32) < 128 by {}
        }
        assert(all_ascii(Seq::<char>::empty()));
        let next = split_state(s);
        assert forall|j: int| 0 <= j < next.words.len() implies all_ascii(#[trigger] next.words[j]) by {
            if j < st.words.len() {
                assert(next.words[j] == st.words[j]);
            } else {
                assert(next.words[j] == st.current);
            }
        }
    }
}

/// The raw words of an ASCII name are ASCII.
proof fn lemma_raw_words_ascii(s: Seq<char>)
    requires
        all_ascii(s),
    ensures
        forall|j: int| 0 <= j < raw_words(s).len() ==> all_ascii(#[trigger] raw_words(s)[j]),
{
    lemma_split_state_ascii(s);
    let st = split_state(s);
    assert forall|j: int| 0 <= j < raw_words(s).len() implies all_ascii(#[trigger] raw_words(s)[j]) by {
        if j < st.words.len() {
            assert(raw_words(s)[j] == st.words[j]);
        }
    }
}

/// Cuts a field name into lowercased words. For an ASCII name the words are
/// its raw words lowercased in ASCII.
pub fn split_words(name: &str) -> (words: Vec<String>)
    ensures
        words.deep_view() == words_of(name@),
        all_ascii(name@) ==> words.deep_view() == ascii_words_of(name@),
{
    let chars = chars_of(name);
    let mut words: Vec<String> = Vec::new();
    let mut current: Vec<char> = Vec::new();
    let mut prev_is_lower_or_digit = false;
    let n = chars.len();
    let mut i: usize = 0;
    while i < n
        invariant
            n == chars@.len(),
            chars@ == name@,
            i <= n,
            words.len() == split_state(name@.take(i as int)).words.len(),
            forall|j: int|
                0 <= j < words.len() ==> #[trigger] words@[j]@ == unicode_lowercase(
                    split_state(name@.take(i as int)).words[j],
                ),
            current@ == split_state(name@.take(i as int)).current,
            all_ascii(name@) ==> forall|j: int|
                0 <= j < words.len() ==> #[trigger] words@[j]@ == ascii_lowercase(
                    split_state(name@.take(i as int)).words[j],
                ),
            prev_is_lower_or_digit == split_state(name@.take(i as int)).prev_lower_or_digit,
        decreases n - i,
    {
        let ch = chars[i];
        assert(name@.take(i + 1).drop_last() == name@.take(i as int));
        assert(name@.take(i + 1).last() == ch);
        proof {
            if all_ascii(name@) {
                assert(all_ascii(name@.take(i as int))) by {
                    assert forall|k: int| 0 <= k < i implies (#[trigger] name@.take(i as int)[k] as u32)
                        < 128 by {
                        assert(name@.take(i as int)[k] == name@[k]);
                    }
                }
                lemma_split_state_ascii(name@.take(i as int));
            }
        }
        if ch == '_' || ch == '-' || ch == ' ' {
            if current.len() > 0 {
                let w = string_of(&current);
                words.push(to_lowercase(w.as_str()));
                current = Vec::new();
            }
            prev_is_lower_or_digit = false;
        } else {
            let is_upper = 'A' <= ch && ch <= 'Z';
            if is_upper && prev_is_lower_or_digit && current.len() > 0 {
                let w = string_of(&current);
                words.push(to_lowercase(w.as_str()));
                current = Vec::new();
            }
            current.push(ch);
            prev_is_lower_or_digit = ('a' <= ch && ch <= 'z') || ('0' <= ch && ch <= '9');
        }
        i = i + 1;
    }
    assert(name@.take(n as int) == name@);
    proof {
        if all_ascii(name@) {
            lemma_split_state_ascii(name@);
        }
    }
    if current.len() > 0 {
        let w = string_of(&current);
        words.push(to_lowercase(w.as_str()));
    }
    assert(words.deep_view() =~= words_of(name@));
    proof {
        if all_ascii(name@) {
            assert(words.deep_view() =~= ascii_words_of(name@));
        }
    }
    words
}


/// The name with its separator characters removed.
pub open spec fn without_separators(s: Seq<char>) -> Seq<char>
    decreases s.len(),
{
    if s.len() == 0 {
        Seq::empty()
    } else if is_word_separator(s.last()) {
        without_separators(s.drop_last())
    } else {
        without_separators(s.drop_last()).push(s.last())
    }
}

/// A word that could come out of the split: non-empty, with no separator.
pub open spec fn is_clean_word(w: Seq<char>) -> bool {
    w.len() > 0 && forall|k: int| 0 <= k < w.len() ==> !is_word_separator(#[trigger] w[k])
}

proof fn lemma_join_push_empty_sep(ws: Seq<Seq<char>>, w: Seq<char>)
    ensures
        join(ws.push(w), Seq::empty()) == join(ws, Seq::empty()) + w,
{
    if ws.len() == 0 {
        assert(ws.push(w).len() == 1);
        assert(join(ws.push(w), Seq::empty()) == w);
        assert(Seq::<char>::empty() + w =~= w);
    } else {
        assert(ws.push(w).drop_last() =~= ws);
        assert(join(ws, Seq::empty()) + Seq::empty() =~= join(ws, Seq::empty()));
    }
}

proof fn lemma_split_state_shape(s: Seq<char>)
    ensures
        forall|j: int|
            0 <= j < split_state(s).words.len() ==> is_clean_word(
                #[trigger] split_state(s).words[j],
            ),
        forall|k: int|
            0 <= k < split_state(s).current.len() ==> !is_word_separator(
                #[trigger] split_state(s).current[k],
            ),
        join(split_state(s).words, Seq::empty()) + split_state(s).current == without_separators(s),
    decreases s.len(),
{
    if s.len() == 0 {
        assert(join(Seq::<Seq<char>>::empty(), Seq::empty()) + Seq::<char>::empty() =~= Seq::<
            char,
        >::empty());
    } else {
        let prev = s.drop_last();
        lemma_split_state_shape(prev);
        let st = split_state(prev);
        let ch = s.last();
        let j0 = join(st.words, Seq::empty());
        if is_word_separator(ch) {
            if st.current.len() > 0 {
                lemma_join_push_empty_sep(st.words, st.current);
                assert(is_clean_word(st.current));
            }
            assert(join(split_state(s).words, Seq::empty()) + Seq::<char>::empty() =~= j0
                + st.current);
        } else if is_ascii_upper(ch) && st.prev_lower_or_digit && st.current.len() > 0 {
            lemma_join_push_empty_sep(st.words, st.current);
            assert(is_clean_word(st.current));
            assert((j0 + st.current) + seq![ch] =~= (j0 + st.current).push(ch));
        } else {
            assert(j0 + st.current.push(ch) =~= (j0 + st.current).push(ch));
        }
    }
}

/// Splitting a name into words loses nothing but separators: every word is
/// non-empty and free of `_`, `-` and spaces, and the words in order spell
/// the name with its separators removed.
pub proof fn split_words_partition(name: Seq<char>)
    ensures
        forall|j: int| 0 <= j < raw_words(name).len() ==> is_clean_word(#[trigger] raw_words(name)[j]),
        join(raw_words(name), Seq::empty()) == without_separators(name),
        words_of(name).len() == raw_words(name).len(),
{
    lemma_split_state_shape(name);
    let st = split_state(name);
    if st.current.len() > 0 {
        lemma_join_push_empty_sep(st.words, st.current);
        assert(is_clean_word(st.current));
        assert forall|j: int| 0 <= j < raw_words(name).len() implies is_clean_word(
            #[trigger] raw_words(name)[j],
        ) by {
            if j < st.words.len() {
                assert(raw_words(name)[j] == st.words[j]);
            }
        }
    } else {
        assert(join(st.words, Seq::empty()) + st.current =~= join(st.words, Seq::empty()));
    }
}

/// The ASCII-capitalized form of a word: its first character uppercased.
pub open spec fn spec_capitalize(w: Seq<char>) -> Seq<char> {
    if w.len() == 0 {
        Seq::empty()
    } else {
        seq![ascii_upper(w[0])] + w.drop_first()
    }
}

/// Uppercases the first character of `word` (ASCII only).
pub fn capitalize(word: &str) -> (r: String)
    ensures
        r@ == spec_capitalize(word@),
{
    let n = word.unicode_len();
    if n == 0 {
        return String::new();
    }
    let mut out = String::new();
    push_char(&mut out, to_ascii_upper(word.get_char(0)));
    let rest = word.substring_char(1, n);
    out.append(rest);
    assert(out@ =~= spec_capitalize(word@));
    out
}

/// The words joined with `sep` between neighbours.
pub open spec fn join(ws: Seq<Seq<char>>, sep: Seq<char>) -> Seq<char>
    decreases ws.len(),
{
    if ws.len() == 0 {
        Seq::empty()
    } else if ws.len() == 1 {
        ws[0]
    } else {
        join(ws.drop_last(), sep) + sep + ws.last()
    }
}

/// The capitalized words, concatenated.
pub open spec fn concat_capitalized(ws: Seq<Seq<char>>) -> Seq<char>
    decreases ws.len(),
{
    if ws.len() == 0 {
        Seq::empty()
    } else {
        concat_capitalized(ws.drop_last()) + spec_capitalize(ws.last())
    }
}

fn join_strings(ws: &Vec<String>, sep: &str) -> (r: String)
    ensures
        r@ == join(ws.deep_view(), sep@),
{
    let mut r = String::new();
    let mut i: usize = 0;
    while i < ws.len()
        invariant
            i <= ws.len(),
            r@ == join(ws.deep_view().take(i as int), sep@),
        decreases ws.len() - i,
    {
        let ghost before = ws.deep_view().take(i as int);
        if i > 0 {
            r.append(sep);
        }
        r.append(ws[i].as_str());
        assert(ws.deep_view().take(i + 1).drop_last() =~= before);
        assert(before.len() == 0 ==> ws.deep_view().take(i + 1) =~= seq![ws[i as int]@]);
        i = i + 1;
    }
    assert(ws.deep_view().take(ws.len() as int) =~= ws.deep_view());
    r
}

fn concat_capitalized_exec(ws: &Vec<String>, from: usize) -> (r: String)
    requires
        from <= ws.len(),
    ensures
        r@ == concat_capitalized(ws.deep_view().skip(from as int)),
{
    let mut r = String::new();
    let mut i: usize = from;
    while i < ws.len()
        invariant
            from <= i <= ws.len(),
            r@ == concat_capitalized(ws.deep_view().subrange(from as int, i as int)),
        decreases ws.len() - i,
    {
        let c = capitalize(ws[i].as_str());
        r.append(c.as_str());
        assert(ws.deep_view().subrange(from as int, i + 1).drop_last() =~= ws.deep_view().subrange(
            from as int,
            i as int,
        ));
        i = i + 1;
    }
    assert(ws.deep_view().subrange(from as int, ws.len() as int) =~= ws.deep_view().skip(
        from as int,
    ));
    r
}

/// A name rewritten under a `rename_all` rule.
pub open spec fn spec_apply_rename_rule(name: Seq<char>, rule: RenameRule) -> Seq<char> {
    let words = words_of(name);
    match rule {
        RenameRule::Lower => unicode_lowercase(join(words, Seq::empty())),
        RenameRule::Upper => unicode_uppercase(join(words, Seq::empty())),
        RenameRule::Pascal => concat_capitalized(words),
        RenameRule::Camel => if words.len() == 0 {
            Seq::empty()
        } else {
            unicode_lowercase(words[0]) + concat_capitalized(words.skip(1))
        },
        RenameRule::Snake => unicode_lowercase(join(words, seq!['_'])),
        RenameRule::ScreamingSnake => unicode_uppercase(join(words, seq!['_'])),
        RenameRule::Kebab => unicode_lowercase(join(words, seq!['-'])),
        RenameRule::ScreamingKebab => unicode_uppercase(join(words, seq!['-'])),
    }
}

/// A name rewritten under a `rename_all` rule, for an ASCII name: the same
/// rewriting with the case mappings done in ASCII.
pub open spec fn ascii_apply_rename_rule(name: Seq<char>, rule: RenameRule) -> Seq<char> {
    let words = ascii_words_of(name);
    match rule {
        RenameRule::Lower => ascii_lowercase(join(words, Seq::empty())),
        RenameRule::Upper => ascii_uppercase(join(words, Seq::empty())),
        RenameRule::Pascal => concat_capitalized(words),
        RenameRule::Camel => if words.len() == 0 {
            Seq::empty()
        } else {
            ascii_lowercase(words[0]) + concat_capitalized(words.skip(1))
        },
        RenameRule::Snake => ascii_lowercase(join(words, seq!['_'])),
        RenameRule::ScreamingSnake => ascii_uppercase(join(words, seq!['_'])),
        RenameRule::Kebab => ascii_lowercase(join(words, seq!['-'])),
        RenameRule::ScreamingKebab => ascii_uppercase(join(words, seq!['-'])),
    }
}

proof fn lemma_ascii_lowercase_ascii(w: Seq<char>)
    requires
        all_ascii(w),
    ensures
        all_ascii(ascii_lowercase(w)),
        ascii_lowercase(w).len() == w.len(),
{
    assert forall|k: int| 0 <= k < ascii_lowercase(w).len() implies (#[trigger] ascii_lowercase(
        w,
    )[k] as u32) < 128 by {
        assert((w[k] as u32) < 128);
    }
}

proof fn lemma_ascii_words_ascii(name: Seq<char>)
    requires
        all_ascii(name),
    ensures
        forall|j: int|
            0 <= j < ascii_words_of(name).len() ==> all_ascii(#[trigger] ascii_words_of(name)[j]),
{
    lemma_raw_words_ascii(name);
    assert forall|j: int| 0 <= j < ascii_words_of(name).len() implies all_ascii(
        #[trigger] ascii_words_of(name)[j],
    ) by {
        assert(all_ascii(raw_words(name)[j]));
        lemma_ascii_lowercase_ascii(raw_words(name)[j]);
    }
}

proof fn lemma_join_ascii(ws: Seq<Seq<char>>, sep: Seq<char>)
    requires
        forall|j: int| 0 <= j < ws.len() ==> all_ascii(#[trigger] ws[j]),
        all_ascii(sep),
    ensures
        all_ascii(join(ws, sep)),
    decreases ws.len(),
{
    if ws.len() > 1 {
        let prev = ws.drop_last();
        assert forall|j: int| 0 <= j < prev.len() implies all_ascii(#[trigger] prev[j]) by {
            assert(prev[j] == ws[j]);
        }
        lemma_join_ascii(prev, sep);
        let a = join(prev, sep);
        let l = ws.last();
        assert(all_ascii(ws[ws.len() - 1]));
        assert forall|k: int| 0 <= k < (a + sep + l).len() implies (#[trigger] (a + sep + l)[k] as u32)
            < 128 by {
            if k < a.len() {
                assert((a + sep + l)[k] == a[k]);
            } else if k < a.len() + sep.len() {
                assert((a + sep + l)[k] == sep[k - a.len()]);
            } else {
                assert((a + sep + l)[k] == l[k - a.len() - sep.len()]);
            }
        }
    } else if ws.len() == 1 {
        assert(all_ascii(ws[0]));
    }
}

/// Rewrites a field name under a `rename_all` rule. For an ASCII name the
/// case mappings are ASCII ones.
pub fn apply_rename_rule(name: &str, rule: RenameRule) -> (r: String)
    ensures
        r@ == spec_apply_rename_rule(name@, rule),
        all_ascii(name@) ==> r@ == ascii_apply_rename_rule(name@, rule),
{
    let words = split_words(name);
    let ghost ws = words_of(name@);
    proof {
        if all_ascii(name@) {
            lemma_ascii_words_ascii(name@);
            reveal_strlit("_");
            reveal_strlit("-");
            reveal_strlit("");
            assert(all_ascii(seq!['_'])) by {
                assert forall|k: int| 0 <= k < 1 implies (#[trigger] seq!['_'][k] as u32) < 128 by {}
            }
            assert(all_ascii(seq!['-'])) by {
                assert forall|k: int| 0 <= k < 1 implies (#[trigger] seq!['-'][k] as u32) < 128 by {}
            }
            lemma_join_ascii(ascii_words_of(name@), Seq::empty());
            lemma_join_ascii(ascii_words_of(name@), seq!['_']);
            lemma_join_ascii(ascii_words_of(name@), seq!['-']);
        }
    }
    match rule {
        RenameRule::Lower => {
            let j = join_strings(&words, "");
            proof { reveal_strlit(""); assert(""@ =~= Seq::<char>::empty()); }
            let r = to_lowercase(j.as_str());
            assert(r@ == unicode_lowercase(join(ws, Seq::empty())));
            r
        },
        RenameRule::Upper => {
            let j = join_strings(&words, "");
            proof { reveal_strlit(""); assert(""@ =~= Seq::<char>::empty()); }
            let r = to_uppercase(j.as_str());
            assert(r@ == unicode_uppercase(join(ws, Seq::empty())));
            r
        },
        RenameRule::Pascal => {
            let r = concat_capitalized_exec(&words, 0);
            assert(words.deep_view().skip(0) =~= words.deep_view());
            assert(r@ == concat_capitalized(ws));
            r
        },
        RenameRule::Camel => {
            if words.len() == 0 {
                return String::new();
            }
            let mut out = to_lowercase(words[0].as_str());
            assert(words[0]@ == words.deep_view()[0]);
            let rest = concat_capitalized_exec(&words, 1);
            out.append(rest.as_str());
            assert(out@ == unicode_lowercase(ws[0]) + concat_capitalized(ws.skip(1)));
            out
        },
        RenameRule::Snake => {
            let j = join_strings(&words, "_");
            proof { reveal_strlit("_"); assert("_"@ =~= seq!['_']); }
            let r = to_lowercase(j.as_str());
            assert(r@ == unicode_lowercase(join(ws, seq!['_'])));
            r
        },
        RenameRule::ScreamingSnake => {
            let j = join_strings(&words, "_");
            proof { reveal_strlit("_"); assert("_"@ =~= seq!['_']); }
            let r = to_uppercase(j.as_str());
            assert(r@ == unicode_uppercase(join(ws, seq!['_'])));
            r
        },
        RenameRule::Kebab => {
            let j = join_strings(&words, "-");
            proof { reveal_strlit("-"); assert("-"@ =~= seq!['-']); }
            let r = to_lowercase(j.as_str());
            assert(r@ == unicode_lowercase(join(ws, seq!['-'])));
            r
        },
        RenameRule::ScreamingKebab => {
            let j = join_strings(&words, "-");
            proof { reveal_strlit("-"); assert("-"@ =~= seq!['-']); }
            let r = to_uppercase(j.as_str());
            assert(r@ == unicode_uppercase(join(ws, seq!['-'])));
            r
        },
    }
}

/// No character of `s` is an ASCII uppercase letter.
pub open spec fn no_ascii_upper(s: Seq<char>) -> bool {
    forall|k: int| 0 <= k < s.len() ==> !is_ascii_upper(#[trigger] s[k])
}

/// A word of a rendered name: non-empty, with no separator and no ASCII
/// uppercase letter.
pub open spec fn is_lower_word(w: Seq<char>) -> bool {
    is_clean_word(w) && no_ascii_upper(w)
}

proof fn lemma_split_append_plain(s: Seq<char>, w: Seq<char>)
    requires
        forall|k: int|
            0 <= k < w.len() ==> !is_word_separator(#[trigger] w[k]) && !is_ascii_upper(w[k]),
    ensures
        split_state(s + w).words == split_state(s).words,
        split_state(s + w).current == split_state(s).current + w,
    decreases w.len(),
{
    if w.len() == 0 {
        assert(s + w =~= s);
        assert(split_state(s).current + w =~= split_state(s).current);
    } else {
        let w2 = w.drop_last();
        assert forall|k: int| 0 <= k < w2.len() implies !is_word_separator(#[trigger] w2[k])
            && !is_ascii_upper(w2[k]) by {
            assert(w2[k] == w[k]);
        }
        lemma_split_append_plain(s, w2);
        let t = s + w;
        assert(t.drop_last() =~= s + w2);
        assert(t.last() == w[w.len() - 1]);
        assert(!is_word_separator(w[w.len() - 1]) && !is_ascii_upper(w[w.len() - 1]));
        assert((split_state(s).current + w2).push(w.last()) =~= split_state(s).current + w);
    }
}

proof fn lemma_split_join(ws: Seq<Seq<char>>, c: char)
    requires
        ws.len() > 0,
        is_word_separator(c),
        forall|j: int| 0 <= j < ws.len() ==> is_lower_word(#[trigger] ws[j]),
    ensures
        split_state(join(ws, seq![c])).words == ws.drop_last(),
        split_state(join(ws, seq![c])).current == ws.last(),
    decreases ws.len(),
{
    let empty = Seq::<char>::empty();
    if ws.len() == 1 {
        assert(is_lower_word(ws[0]));
        lemma_split_append_plain(empty, ws[0]);
        assert(empty + ws[0] =~= ws[0]);
        assert(split_state(empty).current + ws[0] =~= ws[0]);
        assert(ws.drop_last() =~= Seq::<Seq<char>>::empty());
    } else {
        let prev = ws.drop_last();
        assert forall|j: int| 0 <= j < prev.len() implies is_lower_word(#[trigger] prev[j]) by {
            assert(prev[j] == ws[j]);
        }
        lemma_split_join(prev, c);
        let a = join(prev, seq![c]);
        let l = ws.last();
        assert(is_lower_word(ws[ws.len() - 1]));
        assert(is_lower_word(prev[prev.len() - 1]));
        let ac = a + seq![c];
        assert(ac.drop_last() =~= a);
        assert(ac.last() == c);
        assert(split_state(ac).words == prev.drop_last().push(prev.last()));
        assert(prev.drop_last().push(prev.last()) =~= prev);
        assert(split_state(ac).current == Seq::<char>::empty());
        lemma_split_append_plain(ac, l);
        assert(join(ws, seq![c]) == ac + l);
        assert(Seq::<char>::empty() + l =~= l);
    }
}

proof fn lemma_raw_words_join(ws: Seq<Seq<char>>, c: char)
    requires
        is_word_separator(c),
        forall|j: int| 0 <= j < ws.len() ==> is_lower_word(#[trigger] ws[j]),
    ensures
        raw_words(join(ws, seq![c])) == ws,
{
    if ws.len() == 0 {
        assert(raw_words(Seq::<char>::empty()) =~= ws);
    } else {
        lemma_split_join(ws, c);
        assert(is_lower_word(ws[ws.len() - 1]));
        assert(ws.drop_last().push(ws.last()) =~= ws);
    }
}

proof fn lemma_ascii_lowercase_id(s: Seq<char>)
    requires
        no_ascii_upper(s),
    ensures
        ascii_lowercase(s) == s,
{
    assert(ascii_lowercase(s) =~= s);
}

proof fn lemma_join_no_upper(ws: Seq<Seq<char>>, sep: Seq<char>)
    requires
        forall|j: int| 0 <= j < ws.len() ==> no_ascii_upper(#[trigger] ws[j]),
        no_ascii_upper(sep),
    ensures
        no_ascii_upper(join(ws, sep)),
    decreases ws.len(),
{
    if ws.len() > 1 {
        let prev = ws.drop_last();
        assert forall|j: int| 0 <= j < prev.len() implies no_ascii_upper(#[trigger] prev[j]) by {
            assert(prev[j] == ws[j]);
        }
        lemma_join_no_upper(prev, sep);
        let a = join(prev, sep);
        let l = ws.last();
        assert(no_ascii_upper(ws[ws.len() - 1]));
        assert forall|k: int| 0 <= k < (a + sep + l).len() implies !is_ascii_upper(
            #[trigger] (a + sep + l)[k],
        ) by {
            if k < a.len() {
                assert((a + sep + l)[k] == a[k]);
            } else if k < a.len() + sep.len() {
                assert((a + sep + l)[k] == sep[k - a.len()]);
            } else {
                assert((a + sep + l)[k] == l[k - a.len() - sep.len()]);
            }
        }
    } else if ws.len() == 1 {
        assert(no_ascii_upper(ws[0]));
    }
}

proof fn lemma_ascii_words_lower(name: Seq<char>)
    ensures
        forall|j: int|
            0 <= j < ascii_words_of(name).len() ==> is_lower_word(#[trigger] ascii_words_of(name)[j]),
{
    split_words_partition(name);
    assert forall|j: int| 0 <= j < ascii_words_of(name).len() implies is_lower_word(
        #[trigger] ascii_words_of(name)[j],
    ) by {
        let w = raw_words(name)[j];
        assert(is_clean_word(w));
        let lw = ascii_words_of(name)[j];
        assert(lw == ascii_lowercase(w));
        assert forall|k: int| 0 <= k < lw.len() implies !is_word_separator(#[trigger] lw[k]) by {
            assert(lw[k] == ascii_lower(w[k]));
            assert(!is_word_separator(w[k]));
        }
        assert forall|k: int| 0 <= k < lw.len() implies !is_ascii_upper(#[trigger] lw[k]) by {
            assert(lw[k] == ascii_lower(w[k]));
        }
    }
}

proof fn lemma_rerender(name: Seq<char>, c: char)
    requires
        c == '_' || c == '-',
    ensures
        ascii_words_of(ascii_lowercase(join(ascii_words_of(name), seq![c]))) == ascii_words_of(name),
{
    let ws = ascii_words_of(name);
    lemma_ascii_words_lower(name);
    assert(no_ascii_upper(seq![c]));
    assert forall|j: int| 0 <= j < ws.len() implies no_ascii_upper(#[trigger] ws[j]) by {
        assert(is_lower_word(ws[j]));
    }
    lemma_join_no_upper(ws, seq![c]);
    lemma_ascii_lowercase_id(join(ws, seq![c]));
    lemma_raw_words_join(ws, c);
    assert forall|j: int| 0 <= j < ws.len() implies ascii_lowercase(#[trigger] ws[j]) == ws[j] by {
        assert(is_lower_word(ws[j]));
        lemma_ascii_lowercase_id(ws[j]);
    }
    assert(ascii_words_of(join(ws, seq![c])) =~= ws);
}

/// Rendering an ASCII name in snake case or kebab case and rendering the
/// result again under any rule gives the same name as rendering the
/// original under that rule: the rendering keeps the words. In particular
/// snake case and kebab case are idempotent, and the rendering is ASCII
/// again.
pub proof fn rename_rerender_law(name: Seq<char>, rule: RenameRule)
    requires
        all_ascii(name),
    ensures
        all_ascii(ascii_apply_rename_rule(name, RenameRule::Snake)),
        all_ascii(ascii_apply_rename_rule(name, RenameRule::Kebab)),
        ascii_apply_rename_rule(ascii_apply_rename_rule(name, RenameRule::Snake), rule)
            == ascii_apply_rename_rule(name, rule),
        ascii_apply_rename_rule(ascii_apply_rename_rule(name, RenameRule::Kebab), rule)
            == ascii_apply_rename_rule(name, rule),
{
    lemma_rerender(name, '_');
    lemma_rerender(name, '-');
    lemma_ascii_words_ascii(name);
    assert(all_ascii(seq!['_'])) by {
        assert forall|k: int| 0 <= k < 1 implies (#[trigger] seq!['_'][k] as u32) < 128 by {}
    }
    assert(all_ascii(seq!['-'])) by {
        assert forall|k: int| 0 <= k < 1 implies (#[trigger] seq!['-'][k] as u32) < 128 by {}
    }
    lemma_join_ascii(ascii_words_of(name), seq!['_']);
    lemma_join_ascii(ascii_words_of(name), seq!['-']);
    lemma_ascii_lowercase_ascii(join(ascii_words_of(name), seq!['_']));
    lemma_ascii_lowercase_ascii(join(ascii_words_of(name), seq!['-']));
}

/// A word that camelCase and PascalCase render so that it is found again:
/// at least two characters, starting with an ASCII lowercase letter and
/// ending with an ASCII lowercase letter or digit.
pub open spec fn is_plain_word(w: Seq<char>) -> bool {
    &&& w.len() >= 2
    &&& is_ascii_lower(w[0])
    &&& (is_ascii_lower(w.last()) || is_ascii_digit(w.last()))
}

proof fn lemma_upper_of_lower(c: char)
    requires
        is_ascii_lower(c),
    ensures
        is_ascii_upper(ascii_upper(c)),
        !is_word_separator(ascii_upper(c)),
        !is_ascii_lower(ascii_upper(c)),
        !is_ascii_digit(ascii_upper(c)),
        ascii_lower(ascii_upper(c)) == c,
        (ascii_upper(c) as u32) < 128,
{
    let u = ((c as u32) - 32) as char;
    assert(u == ascii_upper(c));
    assert(u as u32 == (c as u32) - 32);
}

proof fn lemma_split_empty()
    ensures
        split_state(Seq::<char>::empty()).words == Seq::<Seq<char>>::empty(),
        split_state(Seq::<char>::empty()).current == Seq::<char>::empty(),
        !split_state(Seq::<char>::empty()).prev_lower_or_digit,
{
}

proof fn lemma_split_append_plain_prev(s: Seq<char>, w: Seq<char>)
    requires
        w.len() > 0,
        forall|k: int|
            0 <= k < w.len() ==> !is_word_separator(#[trigger] w[k]) && !is_ascii_upper(w[k]),
    ensures
        split_state(s + w).prev_lower_or_digit == (is_ascii_lower(w.last()) || is_ascii_digit(
            w.last(),
        )),
{
    let t = s + w;
    assert(t.drop_last() =~= s + w.drop_last());
    assert(t.last() == w.last());
    assert(!is_word_separator(w[w.len() - 1]) && !is_ascii_upper(w[w.len() - 1]));
}

proof fn lemma_cap_step(s: Seq<char>, w: Seq<char>)
    requires
        split_state(s).prev_lower_or_digit,
        split_state(s).current.len() > 0,
        is_lower_word(w),
        is_plain_word(w),
    ensures
        split_state(s + spec_capitalize(w)).words == split_state(s).words.push(
            split_state(s).current,
        ),
        split_state(s + spec_capitalize(w)).current == spec_capitalize(w),
        split_state(s + spec_capitalize(w)).prev_lower_or_digit,
{
    let st = split_state(s);
    let u = ascii_upper(w[0]);
    lemma_upper_of_lower(w[0]);
    let su = s.push(u);
    assert(su.drop_last() =~= s);
    assert(su.last() == u);
    let rest = w.drop_first();
    assert forall|k: int| 0 <= k < rest.len() implies !is_word_separator(#[trigger] rest[k])
        && !is_ascii_upper(rest[k]) by {
        assert(rest[k] == w[k + 1]);
    }
    lemma_split_append_plain(su, rest);
    lemma_split_append_plain_prev(su, rest);
    assert(rest.last() == w.last());
    assert(s + spec_capitalize(w) =~= su + rest);
    assert(seq![u] + rest == spec_capitalize(w));
}

proof fn lemma_concat_capitalized_first(ws: Seq<Seq<char>>)
    requires
        ws.len() > 0,
    ensures
        concat_capitalized(ws) == spec_capitalize(ws[0]) + concat_capitalized(ws.skip(1)),
    decreases ws.len(),
{
    if ws.len() == 1 {
        assert(ws.drop_last() =~= Seq::<Seq<char>>::empty());
        assert(ws.skip(1) =~= Seq::<Seq<char>>::empty());
        assert(Seq::<char>::empty() + spec_capitalize(ws[0]) =~= spec_capitalize(ws[0]));
        assert(spec_capitalize(ws[0]) + Seq::<char>::empty() =~= spec_capitalize(ws[0]));
    } else {
        let prev = ws.drop_last();
        lemma_concat_capitalized_first(prev);
        assert(prev[0] == ws[0]);
        assert(ws.skip(1).drop_last() =~= prev.skip(1));
        assert(ws.skip(1).last() == ws.last());
        assert(spec_capitalize(ws[0]) + concat_capitalized(prev.skip(1)) + spec_capitalize(ws.last())
            =~= spec_capitalize(ws[0]) + (concat_capitalized(prev.skip(1)) + spec_capitalize(
            ws.last(),
        )));
    }
}

proof fn lemma_cap_chain(p: Seq<char>, ws: Seq<Seq<char>>)
    requires
        split_state(p).prev_lower_or_digit,
        split_state(p).current.len() > 0,
        ws.len() > 0,
        forall|k: int| 0 <= k < ws.len() ==> is_lower_word(#[trigger] ws[k]) && is_plain_word(ws[k]),
    ensures
        split_state(p + concat_capitalized(ws)).words == split_state(p).words.push(
            split_state(p).current,
        ) + ws.drop_last().map_values(|w: Seq<char>| spec_capitalize(w)),
        split_state(p + concat_capitalized(ws)).current == spec_capitalize(ws.last()),
        split_state(p + concat_capitalized(ws)).prev_lower_or_digit,
    decreases ws.len(),
{
    let st = split_state(p);
    assert(is_lower_word(ws[ws.len() - 1]) && is_plain_word(ws[ws.len() - 1]));
    if ws.len() == 1 {
        assert(ws.drop_last() =~= Seq::<Seq<char>>::empty());
        assert(concat_capitalized(ws.drop_last()) == Seq::<char>::empty());
        assert(concat_capitalized(ws) =~= spec_capitalize(ws[0]));
        lemma_cap_step(p, ws[0]);
        assert(st.words.push(st.current) + ws.drop_last().map_values(
            |w: Seq<char>| spec_capitalize(w),
        ) =~= st.words.push(st.current));
    } else {
        let prev = ws.drop_last();
        assert forall|k: int| 0 <= k < prev.len() implies is_lower_word(#[trigger] prev[k])
            && is_plain_word(prev[k]) by {
            assert(prev[k] == ws[k]);
        }
        lemma_cap_chain(p, prev);
        let q = p + concat_capitalized(prev);
        lemma_cap_step(q, ws.last());
        assert(p + concat_capitalized(ws) =~= q + spec_capitalize(ws.last()));
        assert(prev.last() == prev[prev.len() - 1]);
        assert((st.words.push(st.current) + prev.drop_last().map_values(
            |w: Seq<char>| spec_capitalize(w),
        )).push(spec_capitalize(prev.last())) =~= st.words.push(st.current) + prev.map_values(
            |w: Seq<char>| spec_capitalize(w),
        ));
    }
}

proof fn lemma_lower_of_cap(w: Seq<char>)
    requires
        is_lower_word(w),
        is_plain_word(w),
    ensures
        ascii_lowercase(spec_capitalize(w)) == w,
{
    lemma_upper_of_lower(w[0]);
    let c = spec_capitalize(w);
    assert forall|k: int| 0 <= k < w.len() implies #[trigger] ascii_lowercase(c)[k] == w[k] by {
        if k > 0 {
            assert(c[k] == w[k]);
            assert(!is_ascii_upper(w[k]));
        }
    }
    assert(ascii_lowercase(c) =~= w);
}

proof fn lemma_concat_capitalized_ascii(ws: Seq<Seq<char>>)
    requires
        forall|k: int| 0 <= k < ws.len() ==> is_lower_word(#[trigger] ws[k]) && is_plain_word(ws[k])
            && all_ascii(ws[k]),
    ensures
        all_ascii(concat_capitalized(ws)),
    decreases ws.len(),
{
    if ws.len() > 0 {
        let prev = ws.drop_last();
        assert forall|k: int| 0 <= k < prev.len() implies is_lower_word(#[trigger] prev[k])
            && is_plain_word(prev[k]) && all_ascii(prev[k]) by {
            assert(prev[k] == ws[k]);
        }
        lemma_concat_capitalized_ascii(prev);
        let w = ws.last();
        assert(is_lower_word(ws[ws.len() - 1]) && is_plain_word(ws[ws.len() - 1]) && all_ascii(
            ws[ws.len() - 1],
        ));
        lemma_upper_of_lower(w[0]);
        let c = spec_capitalize(w);
        assert forall|k: int| 0 <= k < c.len() implies (#[trigger] c[k] as u32) < 128 by {
            if k > 0 {
                assert(c[k] == w[k]);
                assert((w[k] as u32) < 128);
            }
        }
        let a = concat_capitalized(prev);
        assert forall|k: int| 0 <= k < (a + c).len() implies (#[trigger] (a + c)[k] as u32) < 128 by {
            if k < a.len() {
                assert((a + c)[k] == a[k]);
            } else {
                assert((a + c)[k] == c[k - a.len()]);
            }
        }
    }
}

/// Rendering an ASCII name in camelCase or PascalCase keeps its words:
/// splitting the rendering gives the name's words back, every word after
/// the first coming out of its capital letter, so rendering the result
/// again under any rule gives what rendering the name gives. This holds when
/// every word has at least two characters, starts with a lowercase letter
/// and ends with a lowercase letter or digit.
pub proof fn camel_pascal_rerender_law(name: Seq<char>, rule: RenameRule)
    requires
        all_ascii(name),
        forall|k: int| 0 <= k < ascii_words_of(name).len() ==> is_plain_word(#[trigger] ascii_words_of(name)[k]),
    ensures
        ascii_words_of(ascii_apply_rename_rule(name, RenameRule::Camel)) == ascii_words_of(name),
        ascii_words_of(ascii_apply_rename_rule(name, RenameRule::Pascal)) == ascii_words_of(name),
        all_ascii(ascii_apply_rename_rule(name, RenameRule::Camel)),
        all_ascii(ascii_apply_rename_rule(name, RenameRule::Pascal)),
        ascii_apply_rename_rule(ascii_apply_rename_rule(name, RenameRule::Camel), rule)
            == ascii_apply_rename_rule(name, rule),
        ascii_apply_rename_rule(ascii_apply_rename_rule(name, RenameRule::Pascal), rule)
            == ascii_apply_rename_rule(name, rule),
{
    let ws = ascii_words_of(name);
    lemma_ascii_words_lower(name);
    lemma_ascii_words_ascii(name);
    assert forall|k: int| 0 <= k < ws.len() implies is_lower_word(#[trigger] ws[k]) && is_plain_word(
        ws[k],
    ) && all_ascii(ws[k]) by {}
    lemma_concat_capitalized_ascii(ws);
    let empty = Seq::<char>::empty();
    if ws.len() == 0 {
        assert(ascii_apply_rename_rule(name, RenameRule::Camel) == empty);
        assert(concat_capitalized(ws) == empty);
        assert(raw_words(empty) =~= Seq::<Seq<char>>::empty());
        assert(ascii_words_of(empty) =~= ws);
        assert(all_ascii(empty));
    } else {
        let w0 = ws[0];
        assert(is_lower_word(w0) && is_plain_word(w0) && all_ascii(w0));
        lemma_ascii_lowercase_id(w0);
        lemma_ascii_lowercase_ascii(w0);
        let tail = ws.skip(1);
        assert forall|k: int| 0 <= k < tail.len() implies is_lower_word(#[trigger] tail[k])
            && is_plain_word(tail[k]) && all_ascii(tail[k]) by {
            assert(tail[k] == ws[k + 1]);
        }
        lemma_concat_capitalized_ascii(tail);
        // camelCase: the first word as it is, then the others capitalized
        let camel = ascii_apply_rename_rule(name, RenameRule::Camel);
        assert(camel == w0 + concat_capitalized(tail));
        assert forall|k: int| 0 <= k < w0.len() implies !is_word_separator(#[trigger] w0[k])
            && !is_ascii_upper(w0[k]) by {}
        lemma_split_empty();
        lemma_split_append_plain(empty, w0);
        lemma_split_append_plain_prev(empty, w0);
        assert(empty + w0 =~= w0);
        assert(empty + w0 == w0);
        let ct = concat_capitalized(tail);
        let lw = |w: Seq<char>| ascii_lowercase(w);
        let cw = |w: Seq<char>| spec_capitalize(w);
        // pascalCase: every word capitalized
        lemma_concat_capitalized_first(ws);
        let pascal = ascii_apply_rename_rule(name, RenameRule::Pascal);
        assert(pascal == spec_capitalize(w0) + ct);
        let u = ascii_upper(w0[0]);
        lemma_upper_of_lower(w0[0]);
        let eu = seq![u];
        assert(eu.drop_last() =~= empty);
        assert(eu.last() == u);
        let r0 = w0.drop_first();
        assert forall|k: int| 0 <= k < r0.len() implies !is_word_separator(#[trigger] r0[k])
            && !is_ascii_upper(r0[k]) by {
            assert(r0[k] == w0[k + 1]);
        }
        lemma_split_append_plain(eu, r0);
        lemma_split_append_plain_prev(eu, r0);
        assert(r0.last() == w0.last());
        let c0 = spec_capitalize(w0);
        assert(eu + r0 == c0);
        assert(split_state(c0).words == Seq::<Seq<char>>::empty());
        assert(split_state(c0).current =~= c0);
        lemma_lower_of_cap(w0);
        assert forall|k: int| 0 <= k < tail.len() implies #[trigger] lw(cw(tail[k])) == tail[k] by {
            lemma_lower_of_cap(tail[k]);
        }
        if tail.len() == 0 {
            assert(ct == empty);
            assert(camel =~= w0);
            assert(pascal =~= c0);
            assert(raw_words(camel) =~= seq![w0]);
            assert(raw_words(pascal) =~= seq![c0]);
            assert(ascii_words_of(camel) =~= ws);
            assert(ascii_words_of(pascal) =~= ws);
        } else {
            lemma_cap_chain(w0, tail);
            lemma_cap_chain(c0, tail);
            let cs = tail.map_values(cw);
            assert(raw_words(camel) =~= seq![w0] + cs);
            assert(raw_words(pascal) =~= seq![c0] + cs);
            assert(ascii_words_of(camel) =~= ws);
            assert(ascii_words_of(pascal) =~= ws);
        }
        assert forall|k: int| 0 <= k < (w0 + ct).len() implies (#[trigger] (w0 + ct)[k] as u32)
            < 128 by {
            if k < w0.len() {
                assert((w0 + ct)[k] == w0[k]);
            } else {
                assert((w0 + ct)[k] == ct[k - w0.len()]);
            }
        }
    }
}

} // verus!
