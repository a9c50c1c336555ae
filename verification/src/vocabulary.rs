//! The curse words, and the matcher that finds them in a comment.

use vstd::prelude::*;
use vstd::string::StringExecFns;
use crate::error::CursecovError;

verus! {

/// `regex::Regex`, a compiled regular expression; nothing inside it is seen here.
#[verifier::external_type_specification]
#[verifier::external_body]
pub struct ExRegex(regex::Regex);

/// `regex::Error`, the reason why a pattern did not compile; only passed on.
#[verifier::external_type_specification]
#[verifier::external_body]
pub struct ExRegexError(regex::Error);

/// The pattern text that a compiled regex was made from, as `regex::Regex::as_str` gives it back.
pub uninterp spec fn regex_pattern(re: regex::Regex) -> Seq<char>;

/// Whether the regex compiled from `pattern` with the engine's defaults finds
/// a match anywhere in `haystack`, as `regex::Regex::is_match` tells.
pub uninterp spec fn regex_is_match(pattern: Seq<char>, haystack: Seq<char>) -> bool;

/// Whether `regex::Regex::new` accepts `pattern`, with the engine's defaults.
pub uninterp spec fn regex_compiles(pattern: Seq<char>) -> bool;

/// Calls `regex::Regex::new`. Whether the pattern compiles depends on the
/// pattern alone, and a regex that comes back was made from `pattern`.
#[verifier::external_body]
fn compile_regex(pattern: &str) -> (r: Result<regex::Regex, regex::Error>)
    ensures
        r is Ok <==> regex_compiles(pattern@),
        r matches Ok(re) ==> regex_pattern(re) == pattern@,
{
    regex::Regex::new(pattern)
}

/// Calls `regex::Regex::is_match`: the answer depends on the pattern that
/// the regex was compiled from and on the haystack alone.
#[verifier::external_body]
fn regex_finds(re: &regex::Regex, haystack: &str) -> (found: bool)
    ensures
        found == regex_is_match(regex_pattern(*re), haystack@),
{
    re.is_match(haystack)
}

/// The curse words, case-sensitive, in the order in which the pattern lists them.
pub open spec fn curse_word_list() -> Seq<Seq<char>> {
    seq![
        "motherfucking"@,
        "motherfucker"@,
        "fucking"@,
        "fucked"@,
        "fucker"@,
        "fuck"@,
        "crappy"@,
        "crap"@,
        "dumbass"@,
        "ass"@,
        "shit"@,
        "bullshit"@,
    ]
}

/// The words joined by `|`.
pub open spec fn alternation(words: Seq<Seq<char>>) -> Seq<char>
    decreases words.len(),
{
    if words.len() == 0 {
        Seq::empty()
    } else if words.len() == 1 {
        words[0]
    } else {
        alternation(words.drop_last()) + seq!['|'] + words.last()
    }
}

/// The regex that finds one of `words` as a whole word: the alternation of
/// the words in a group, with a word boundary on either side.
pub open spec fn whole_word_pattern(words: Seq<Seq<char>>) -> Seq<char> {
    seq!['\\', 'b', '('] + alternation(words) + seq![')', '\\', 'b']
}

/// Whether `text` holds a curse word as a whole word.
pub open spec fn is_cursed(text: Seq<char>) -> bool {
    regex_is_match(whole_word_pattern(curse_word_list()), text)
}

/// Whether the regex engine accepts the pattern of the curse words.
pub open spec fn vocabulary_compiles() -> bool {
    regex_compiles(whole_word_pattern(curse_word_list()))
}

/// The curse words.
pub fn curse_words() -> (words: Vec<&'static str>)
    ensures
        words@.map_values(|w: &'static str| w@) == curse_word_list(),
{
    let words = vec![
        "motherfucking",
        "motherfucker",
        "fucking",
        "fucked",
        "fucker",
        "fuck",
        "crappy",
        "crap",
        "dumbass",
        "ass",
        "shit",
        "bullshit",
    ];
    assert(words@.map_values(|w: &'static str| w@) =~= curse_word_list());
    words
}

/// The text of the regex that finds one of `words` as a whole word.
pub fn build_whole_word_pattern(words: &Vec<&str>) -> (pattern: String)
    ensures
        pattern@ == whole_word_pattern(words@.map_values(|w: &str| w@)),
{
    let ghost views = words@.map_values(|w: &str| w@);
    let mut pattern = String::from_str("\\b(");
    proof {
        reveal_strlit("\\b(");
        assert(pattern@ =~= seq!['\\', 'b', '(']);
        assert(views.take(0) =~= Seq::<Seq<char>>::empty());
    }
    let mut i: usize = 0;
    while i < words.len()
        invariant
            i <= words.len(),
            views == words@.map_values(|w: &str| w@),
            pattern@ == seq!['\\', 'b', '('] + alternation(views.take(i as int)),
        decreases words.len() - i,
    {
        if i > 0 {
            pattern.append("|");
        }
        pattern.append(words[i]);
        proof {
            reveal_strlit("|");
            let next = views.take(i + 1);
            assert(next.drop_last() =~= views.take(i as int));
            assert(next.last() == words[i as int]@);
            assert("|"@ =~= seq!['|']);
            assert(pattern@ =~= seq!['\\', 'b', '('] + alternation(next));
        }
        i += 1;
    }
    pattern.append(")\\b");
    proof {
        reveal_strlit(")\\b");
        assert(views.take(words.len() as int) =~= views);
        assert(")\\b"@ =~= seq![')', '\\', 'b']);
        assert(pattern@ =~= whole_word_pattern(views));
    }
    pattern
}

/// Finds curse words in text. Built once and used for every comment of a run.
pub struct CurseMatcher {
    re: regex::Regex,
}

impl CurseMatcher {
    #[verifier::type_invariant]
    spec fn made_from_curse_words(&self) -> bool {
        regex_pattern(self.re) == whole_word_pattern(curse_word_list())
    }

    /// The matcher for the curse words. There is one exactly where the regex
    /// engine accepts the pattern of the curse words; else the error is a
    /// vocabulary error.
    pub fn new() -> (r: Result<Self, CursecovError>)
        ensures
            r is Ok <==> vocabulary_compiles(),
            r matches Err(e) ==> e == CursecovError::Vocabulary,
    {
        let pattern = build_whole_word_pattern(&curse_words());
        match compile_regex(pattern.as_str()) {
            Ok(re) => Ok(CurseMatcher { re }),
            Err(_) => Err(CursecovError::Vocabulary),
        }
    }

    /// Whether `text` holds a curse word as a whole word. One is enough,
    /// and more of them count no further.
    pub fn matches(&self, text: &str) -> (found: bool)
        ensures
            found == is_cursed(text@),
    {
        proof {
            use_type_invariant(self);
        }
        regex_finds(&self.re, text)
    }
}

} // verus!
