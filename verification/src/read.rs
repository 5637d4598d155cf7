//! From a chat message to the text that is spoken: custom emoji become their
//! names, formatting marks are dropped, links become a pause, the speaker's
//! name is put in front where a new speaker begins, dictionary words give way
//! to their readings, and what is too long is cut.

use crate::dict::{
    dictionary_accepted, replace_words_on_dict, substituted, usable_entries, DictEntry,
    MatcherBuildError,
};
use vstd::prelude::*;
use vstd::string::*;

verus! {

/// Which references in a message's text are written out as they are
/// displayed before the text is read.
#[derive(Debug, Clone, Copy)]
pub struct ContentRules {
    pub clean_channel: bool,
    pub clean_role: bool,
    pub clean_user: bool,
    pub show_discriminator: bool,
    pub clean_here: bool,
    pub clean_everyone: bool,
}

/// Who wrote a message, and when (in seconds since the epoch).
#[derive(Debug, Clone, Copy)]
pub struct MessageStamp {
    pub author_id: u64,
    pub timestamp: i64,
}

/// What, besides the message's own text, decides how it is read.
#[derive(Debug, Clone, Copy)]
pub struct ReadContext {
    pub current: MessageStamp,
    pub previous: Option<MessageStamp>,
    pub speak_user_name: bool,
    pub speak_length_limit: usize,
}

/// What `Regex::replace_all` returns for the regex compiled from `pattern`,
/// or `None` where `pattern` does not compile.
pub uninterp spec fn regex_replaced(
    pattern: Seq<char>,
    text: Seq<char>,
    replacement: Seq<char>,
) -> Option<Seq<char>>;

/// What the markdown parser's document of `text` renders to: without
/// formatting marks where `omit_format` is set, without spoilers and what
/// they hide where `omit_spoiler` is set.
pub uninterp spec fn markdown_rendered(
    text: Seq<char>,
    omit_format: bool,
    omit_spoiler: bool,
) -> Seq<char>;

/// Custom emoji markup: a name between colons and a number, in angle brackets.
pub open spec fn custom_emoji_pattern() -> Seq<char> {
    "<:(\\w+):\\d+>"@
}

/// A link: the scheme, and at least two characters that are no white space.
pub open spec fn url_pattern() -> Seq<char> {
    "https?://\\S\\S+"@
}

/// The mark that ends a text that was cut.
pub open spec fn omitted_marker() -> Seq<char> {
    seq!['、', '以', '下', '略']
}

/// `text` with every match of `pattern` replaced; unchanged where the
/// pattern does not compile.
pub open spec fn pattern_replaced(
    pattern: Seq<char>,
    text: Seq<char>,
    replacement: Seq<char>,
) -> Seq<char> {
    match regex_replaced(pattern, text, replacement) {
        Some(replaced) => replaced,
        None => text,
    }
}

/// `text` with each custom emoji replaced by its name.
pub open spec fn emojis_replaced(text: Seq<char>) -> Seq<char> {
    pattern_replaced(custom_emoji_pattern(), text, "$1"@)
}

/// `text` with each link replaced by a pause.
pub open spec fn url_removed(text: Seq<char>) -> Seq<char> {
    pattern_replaced(url_pattern(), text, "、"@)
}

/// `text` without formatting and spoiler marks; what they enclose stays.
pub open spec fn markdown_stripped(text: Seq<char>) -> Seq<char> {
    markdown_rendered(text, true, false)
}

/// The content of a message as it is spoken.
pub open spec fn normalized(content: Seq<char>) -> Seq<char> {
    url_removed(markdown_stripped(emojis_replaced(content)))
}

/// A name is read where there is no earlier message, where another author
/// wrote it, or where more than ten seconds lie between the two.
pub open spec fn reads_author_name(msg: MessageStamp, last_msg: Option<MessageStamp>) -> bool {
    match last_msg {
        None => true,
        Some(last) => msg.author_id != last.author_id || msg.timestamp - last.timestamp > 10,
    }
}

/// The author's name, a full stop, and the content.
pub open spec fn with_author_name(author_name: Seq<char>, content: Seq<char>) -> Seq<char> {
    author_name + seq!['。'] + content
}

/// The content, with the author's name in front where it is read.
pub open spec fn announced(
    context: ReadContext,
    author_name: Seq<char>,
    content: Seq<char>,
) -> Seq<char> {
    if context.speak_user_name && reads_author_name(context.current, context.previous) {
        with_author_name(author_name, content)
    } else {
        content
    }
}

/// How many characters of a text that is over `limit` are kept in front of
/// the mark.
pub open spec fn kept_length(limit: nat) -> nat {
    if limit >= 4 {
        (limit - 4) as nat
    } else {
        0
    }
}

/// `text` where it has at most `limit` characters; else its beginning and
/// the mark, `limit` characters together where `limit` is at least four.
pub open spec fn limited(text: Seq<char>, limit: nat) -> Seq<char> {
    if text.len() > limit {
        text.take(kept_length(limit) as int) + omitted_marker()
    } else {
        text
    }
}

/// The utterance of a message, given the dictionary.
pub open spec fn read_text(
    content: Seq<char>,
    author_name: Seq<char>,
    context: ReadContext,
    dict: Seq<DictEntry>,
) -> Seq<char> {
    limited(
        substituted(announced(context, author_name, normalized(content)), usable_entries(dict)),
        context.speak_length_limit as nat,
    )
}

/// A limited text has at most `limit` characters, where `limit` leaves room
/// for the mark.
pub proof fn lemma_limited_length(text: Seq<char>, limit: nat)
    requires
        limit >= 4,
    ensures
        limited(text, limit).len() <= limit,
{
}

/// A text over the limit ends with the mark, which takes four characters of
/// the limit: in front of it stand the first `limit - 4` characters.
pub proof fn lemma_limited_over_limit(text: Seq<char>, limit: nat)
    requires
        text.len() > limit,
    ensures
        omitted_marker().len() == 4,
        omitted_marker().is_suffix_of(limited(text, limit)),
        limited(text, limit).len() == kept_length(limit) + 4,
        limit >= 4 ==> limited(text, limit).len() == limit,
        limited(text, limit).take(kept_length(limit) as int) == text.take(
            kept_length(limit) as int,
        ),
{
    let kept = text.take(kept_length(limit) as int);
    let cut = limited(text, limit);
    assert(cut.skip(cut.len() - 4) == omitted_marker());
    assert(cut.take(kept_length(limit) as int) == kept);
}

/// An utterance has at most as many characters as the limit allows, where
/// the limit leaves room for the mark.
pub proof fn lemma_read_text_length(
    content: Seq<char>,
    author_name: Seq<char>,
    context: ReadContext,
    dict: Seq<DictEntry>,
)
    requires
        context.speak_length_limit >= 4,
    ensures
        read_text(content, author_name, context, dict).len() <= context.speak_length_limit,
{
}

/// With the same author, a name is read exactly when more than ten seconds
/// have passed; with another author, always.
pub proof fn lemma_author_name_burst(msg: MessageStamp, last: MessageStamp)
    ensures
        msg.author_id == last.author_id && msg.timestamp - last.timestamp <= 10
            ==> !reads_author_name(msg, Some(last)),
        msg.timestamp - last.timestamp >= 11 ==> reads_author_name(msg, Some(last)),
        msg.author_id != last.author_id ==> reads_author_name(msg, Some(last)),
        reads_author_name(msg, None),
{
}

/// Compiles `pattern` with `Regex::new` and calls `Regex::replace_all` on
/// `text`. Assumed: the outcome depends on the three strings alone, and is
/// `None` exactly where the pattern does not compile.
#[verifier::external_body]
fn regex_replace_all(pattern: &str, text: &str, replacement: &str) -> (res: Option<String>)
    ensures
        match res {
            Some(replaced) => regex_replaced(pattern@, text@, replacement@) == Some(replaced@),
            None => regex_replaced(pattern@, text@, replacement@) is None,
        },
{
    match regex::Regex::new(pattern) {
        Ok(compiled) => Some(compiled.replace_all(text, replacement).into_owned()),
        Err(_) => None,
    }
}

/// Calls `discord_md::parse` and renders the document with
/// `to_markdown_string`. Assumed: the parser accepts every text, as its
/// source says, and the outcome depends on the text and the two switches
/// alone.
#[verifier::external_body]
fn render_markdown(text: &str, omit_format: bool, omit_spoiler: bool) -> (res: String)
    ensures
        res@ == markdown_rendered(text@, omit_format, omit_spoiler),
{
    let option = discord_md::generate::ToMarkdownStringOption::new()
        .omit_format(omit_format)
        .omit_spoiler(omit_spoiler);
    discord_md::generate::ToMarkdownString::to_markdown_string(&discord_md::parse(text), &option)
}

/// What a replacement gives once its outcome is known: the replaced text,
/// or `text` itself where the pattern did not compile.
pub fn replaced_or_unchanged(outcome: Option<String>, text: &str) -> (res: String)
    ensures
        res@ == match outcome {
            Some(replaced) => replaced@,
            None => text@,
        },
{
    match outcome {
        Some(replaced) => replaced,
        None => String::from_str(text),
    }
}

/// Replaces every match of `pattern` in `text`; a pattern that does not
/// compile leaves the text as it is.
pub fn replace_pattern(pattern: &str, text: &str, replacement: &str) -> (res: String)
    ensures
        res@ == pattern_replaced(pattern@, text@, replacement@),
{
    replaced_or_unchanged(regex_replace_all(pattern, text, replacement), text)
}

/// Mentions of users, roles and channels are written out by name, without
/// discriminator; `@everyone` and `@here` are left as they are written.
pub fn content_rules() -> (res: ContentRules)
    ensures
        res.clean_channel && res.clean_role && res.clean_user,
        !res.show_discriminator,
        !res.clean_here && !res.clean_everyone,
{
    ContentRules {
        clean_channel: true,
        clean_role: true,
        clean_user: true,
        show_discriminator: false,
        clean_here: false,
        clean_everyone: false,
    }
}

/// Whether the author's name is read in front of `msg`.
pub fn should_read_author_name(msg: &MessageStamp, last_msg: &Option<MessageStamp>) -> (res: bool)
    ensures
        res == reads_author_name(*msg, *last_msg),
{
    match last_msg {
        None => true,
        Some(last) => {
            msg.author_id != last.author_id || (msg.timestamp as i128) - (last.timestamp as i128)
                > 10
        },
    }
}

/// The name by which an author is called: the nickname, or without one the
/// user name.
pub fn build_author_name(nick: Option<String>, user_name: String) -> (res: String)
    ensures
        res == match nick {
            Some(name) => name,
            None => user_name,
        },
{
    match nick {
        Some(name) => name,
        None => user_name,
    }
}

/// Replaces each custom emoji by its name.
pub fn replace_custom_emojis(text: &str) -> (res: String)
    ensures
        res@ == emojis_replaced(text@),
{
    replace_pattern("<:(\\w+):\\d+>", text, "$1")
}

/// Drops formatting and spoiler marks and keeps what they enclose.
pub fn strip_markdown(text: &str) -> (res: String)
    ensures
        res@ == markdown_stripped(text@),
{
    render_markdown(text, true, false)
}

/// Replaces each link by a pause.
pub fn remove_url(text: &str) -> (res: String)
    ensures
        res@ == url_removed(text@),
{
    replace_pattern("https?://\\S\\S+", text, "、")
}

/// The content of a message as it is spoken: emoji, then formatting, then links.
pub fn normalize_content(content: &str) -> (res: String)
    ensures
        res@ == normalized(content@),
{
    let content = replace_custom_emojis(content);
    let content = strip_markdown(content.as_str());
    remove_url(content.as_str())
}

/// Puts the author's name in front of the content where it is read.
pub fn announce(context: &ReadContext, author_name: &str, content: String) -> (res: String)
    ensures
        res@ == announced(*context, author_name@, content@),
{
    if context.speak_user_name && should_read_author_name(&context.current, &context.previous) {
        let mut text = String::from_str(author_name);
        text.append("。");
        text.append(content.as_str());
        proof {
            reveal_strlit("。");
            assert("。"@ =~= seq!['。']);
        }
        text
    } else {
        content
    }
}

/// Cuts a text that has more than `limit` characters and ends it with the mark.
pub fn limit_length(text: String, limit: usize) -> (res: String)
    ensures
        res@ == limited(text@, limit as nat),
        limit >= 4 ==> res@.len() <= limit,
        res@.len() <= limit || res@.len() == 4,
{
    let length: usize = text.as_str().unicode_len();
    if length > limit {
        let kept: usize = if limit >= 4 {
            limit - 4
        } else {
            0
        };
        let mut cut = String::from_str(text.as_str().substring_char(0, kept));
        cut.append("、以下略");
        proof {
            reveal_strlit("、以下略");
            assert("、以下略"@ =~= omitted_marker());
        }
        cut
    } else {
        text
    }
}

/// What is spoken once the dictionary has been applied, or could not be:
/// the substituted text within the limit, or the failure as it came.
pub fn conclude_read_text(
    substitution: Result<String, MatcherBuildError>,
    limit: usize,
) -> (res: Result<String, MatcherBuildError>)
    ensures
        match substitution {
            Ok(replaced) => res matches Ok(text) && text@ == limited(replaced@, limit as nat),
            Err(error) => res == Err::<String, MatcherBuildError>(error),
        },
{
    match substitution {
        Ok(replaced) => Ok(limit_length(replaced, limit)),
        Err(error) => Err(error),
    }
}

/// The text that is spoken for a message.
///
/// `content` is the message's text with mentions written out, `author_name`
/// the name by which its author is called. The call fails exactly where no
/// matcher can be built of the dictionary's words.
pub fn build_read_text(
    content: &str,
    author_name: &str,
    context: &ReadContext,
    dict: &Vec<DictEntry>,
) -> (res: Result<String, MatcherBuildError>)
    ensures
        res is Ok <==> dictionary_accepted(dict@),
        dict@.len() == 0 ==> res is Ok,
        res matches Ok(text) ==> text@ == read_text(content@, author_name@, *context, dict@),
        res matches Ok(text) ==> context.speak_length_limit >= 4 ==> text@.len()
            <= context.speak_length_limit,
        res matches Ok(text) ==> text@.len() <= context.speak_length_limit || text@.len() == 4,
{
    let content = normalize_content(content);
    let text = announce(context, author_name, content);
    conclude_read_text(replace_words_on_dict(text.as_str(), dict), context.speak_length_limit)
}

} // verus!
