//! Names and labels under which metrics of a session are published.

use vstd::prelude::*;
use vstd::string::*;

verus! {

/// Prefix of every published name.
pub const METRIC_PREFIX: &'static str = "ton_node_simplex_";

/// Prefix of the names that a session uses itself.
pub const SESSION_PREFIX: &'static str = "simplex_";

/// Suffix of the names of derived speeds, which are not published.
pub const SPEED_SUFFIX: &'static str = ".speed";

/// Which labels are published.
#[derive(Clone, Copy, Debug, PartialEq, Eq, Structural)]
pub enum PrometheusLabels {
    ShardOnly,
    ShardAndSessionId,
}

/// How a metric is used.
#[derive(Clone, Copy, Debug, PartialEq, Eq, Structural)]
pub enum MetricUsage {
    Counter,
    Derivative,
    Percents,
    Float,
    Latency,
}

/// What a session is known by.
#[derive(Clone, Copy, Debug)]
pub struct SessionIdentity<'a> {
    pub shard: &'a str,
    /// First eight hexadecimal digits of the session's identifier.
    pub session_id8: &'a str,
}

/// A series that a metric is published in.
#[derive(Debug)]
pub struct PublishedSeries {
    pub name: String,
    /// Whether it counts; else it is a gauge.
    pub is_counter: bool,
}

/// The labels of a session.
pub open spec fn labels_of(strategy: PrometheusLabels, identity: SessionIdentity) -> Seq<
    (Seq<char>, Seq<char>),
> {
    match strategy {
        PrometheusLabels::ShardOnly => seq![("shard"@, identity.shard@)],
        PrometheusLabels::ShardAndSessionId => seq![
            ("shard"@, identity.shard@),
            ("session_id"@, identity.session_id8@),
        ],
    }
}

/// `text` without `prefix`, if it starts with it.
pub open spec fn without_prefix(text: Seq<char>, prefix: Seq<char>) -> Seq<char> {
    if prefix.is_prefix_of(text) {
        text.skip(prefix.len() as int)
    } else {
        text
    }
}

/// Whether a character cannot stand in a name.
pub open spec fn invalid(ch: char) -> bool {
    ch == '.' || ch == ':'
}

/// `text` with an underscore for each character that cannot stand in a name.
pub open spec fn cleaned(text: Seq<char>) -> Seq<char> {
    text.map_values(
        |ch: char| if invalid(ch) {
            '_'
        } else {
            ch
        },
    )
}

/// What of `text` follows all the prefixes that it starts with.
pub open spec fn stripped(text: Seq<char>) -> Seq<char>
    decreases text.len(),
{
    if METRIC_PREFIX@.len() > 0 && METRIC_PREFIX@.is_prefix_of(text) {
        stripped(text.skip(METRIC_PREFIX@.len() as int))
    } else if SESSION_PREFIX@.len() > 0 && SESSION_PREFIX@.is_prefix_of(text) {
        stripped(text.skip(SESSION_PREFIX@.len() as int))
    } else {
        text
    }
}

/// The name under which the metric `key` is published.
pub open spec fn sanitized(key: Seq<char>) -> Seq<char> {
    METRIC_PREFIX@ + stripped(cleaned(key))
}

/// Whether a character cannot stand in a name.
pub fn is_invalid(ch: char) -> (r: bool)
    ensures
        r == invalid(ch),
{
    ch == '.' || ch == ':'
}

fn matches_at(text: &str, at: usize, part: &str) -> (r: bool)
    requires
        at + part@.len() <= text@.len(),
    ensures
        r == (text@.subrange(at as int, at + part@.len()) == part@),
{
    let len: usize = text.unicode_len();
    let n: usize = part.unicode_len();
    let mut i: usize = 0;
    while i < n
        invariant
            i <= n,
            n == part@.len(),
            at + n <= len,
            len == text@.len(),
            forall|j: int| 0 <= j < i ==> text@[at + j] == #[trigger] part@[j],
        decreases n - i,
    {
        if text.get_char(at + i) != part.get_char(i) {
            assert(text@.subrange(at as int, at + part@.len())[i as int] == text@[at + i]);
            return false;
        }
        i += 1;
    }
    assert(text@.subrange(at as int, at + part@.len()) =~= part@);
    true
}

fn strip_prefix<'a>(text: &'a str, prefix: &str) -> (r: &'a str)
    ensures
        r@ == without_prefix(text@, prefix@),
{
    let len: usize = text.unicode_len();
    let n: usize = prefix.unicode_len();
    if n <= len {
        assert(text@.subrange(0, n as int) == prefix@ <==> prefix@.is_prefix_of(text@));
        if matches_at(text, 0, prefix) {
            assert(text@.subrange(n as int, len as int) =~= text@.skip(n as int));
            return text.substring_char(n, len);
        }
    }
    text
}

/// Whether `key` names a derived speed.
pub open spec fn is_speed(key: Seq<char>) -> bool {
    SPEED_SUFFIX@.is_suffix_of(key)
}

fn has_speed_suffix(key: &str) -> (r: bool)
    ensures
        r == is_speed(key@),
{
    let len: usize = key.unicode_len();
    let n: usize = SPEED_SUFFIX.unicode_len();
    if n <= len {
        matches_at(key, len - n, SPEED_SUFFIX)
    } else {
        false
    }
}

fn clean(text: &str) -> (r: String)
    ensures
        r@ == cleaned(text@),
{
    let mut out: String = String::new();
    let n: usize = text.unicode_len();
    let mut i: usize = 0;
    proof {
        reveal_strlit("_");
        assert(cleaned(text@).take(0) =~= Seq::<char>::empty());
    }
    while i < n
        invariant
            i <= n,
            n == text@.len(),
            "_"@ == seq!['_'],
            out@ == cleaned(text@).take(i as int),
        decreases n - i,
    {
        let ghost ch = text@[i as int];
        if is_invalid(text.get_char(i)) {
            out.append("_");
        } else {
            out.append(text.substring_char(i, i + 1));
            assert(text@.subrange(i as int, i + 1) =~= seq![ch]);
        }
        assert(out@ =~= cleaned(text@).take(i as int + 1));
        i += 1;
    }
    assert(cleaned(text@).take(n as int) =~= cleaned(text@));
    out
}

/// The name under which the metric `key` is published: with one prefix, and
/// with underscores for dots and colons.
pub fn sanitize_name(key: &str) -> (r: String)
    ensures
        r@ == sanitized(key@),
{
    let text: String = clean(key);
    let mut rest: &str = text.as_str();
    let mut more: bool = true;
    proof {
        lemma_prefixes();
    }
    while more
        invariant
            METRIC_PREFIX@.len() == 17,
            SESSION_PREFIX@.len() == 8,
            stripped(rest@) == stripped(cleaned(key@)),
            !more ==> stripped(rest@) == rest@,
        decreases rest@.len(), more as int,
    {
        let shorter: &str = strip_prefix(rest, METRIC_PREFIX);
        if shorter.unicode_len() < rest.unicode_len() {
            rest = shorter;
        } else {
            let shorter: &str = strip_prefix(rest, SESSION_PREFIX);
            more = shorter.unicode_len() < rest.unicode_len();
            rest = shorter;
        }
    }
    let mut out: String = String::from_str(METRIC_PREFIX);
    out.append(rest);
    out
}

/// The labels of a session.
pub fn build_labels(strategy: PrometheusLabels, identity: SessionIdentity<'_>) -> (r: Vec<
    (&'static str, String),
>)
    ensures
        r@.len() == labels_of(strategy, identity).len(),
        forall|i: int|
            0 <= i < r@.len() ==> {
                &&& (#[trigger] r@[i]).0@ == labels_of(strategy, identity)[i].0
                &&& r@[i].1@ == labels_of(strategy, identity)[i].1
            },
{
    let mut labels: Vec<(&'static str, String)> = Vec::new();
    labels.push(("shard", String::from_str(identity.shard)));
    match strategy {
        PrometheusLabels::ShardOnly => {},
        PrometheusLabels::ShardAndSessionId => {
            labels.push(("session_id", String::from_str(identity.session_id8)));
        },
    }
    labels
}

/// The series that the metric `key` is published in; a derived speed is in none.
pub fn series_of(key: &str, usage: MetricUsage) -> (r: Option<PublishedSeries>)
    ensures
        r is None <==> is_speed(key@),
        r matches Some(series) ==> {
            &&& series.name@ == sanitized(key@)
            &&& series.is_counter == (usage == MetricUsage::Counter)
        },
{
    if has_speed_suffix(key) {
        return None;
    }
    let is_counter: bool = match usage {
        MetricUsage::Counter => true,
        _ => false,
    };
    Some(PublishedSeries { name: sanitize_name(key), is_counter })
}

proof fn lemma_prefixes()
    ensures
        METRIC_PREFIX@.len() == 17,
        SESSION_PREFIX@.len() == 8,
        cleaned(METRIC_PREFIX@) == METRIC_PREFIX@,
        cleaned(SESSION_PREFIX@) == SESSION_PREFIX@,
        forall|i: int| 0 <= i < 17 ==> !invalid(#[trigger] METRIC_PREFIX@[i]),
{
    reveal_strlit("ton_node_simplex_");
    reveal_strlit("simplex_");
    assert forall|i: int| 0 <= i < 17 implies !invalid(#[trigger] METRIC_PREFIX@[i]) by {
        lemma_prefix_chars(i);
    }
    assert(cleaned(METRIC_PREFIX@) =~= METRIC_PREFIX@);
    assert forall|i: int| 0 <= i < 8 implies !invalid(#[trigger] SESSION_PREFIX@[i]) by {
        assert(SESSION_PREFIX@[i] == METRIC_PREFIX@[9 + i]) by {
            lemma_session_chars(i);
        }
    }
    assert(cleaned(SESSION_PREFIX@) =~= SESSION_PREFIX@);
}

proof fn lemma_session_chars(i: int)
    requires
        0 <= i < 8,
    ensures
        SESSION_PREFIX@[i] == METRIC_PREFIX@[9 + i],
{
    reveal_strlit("ton_node_simplex_");
    reveal_strlit("simplex_");
    if i == 0 {
    } else if i == 1 {
    } else if i == 2 {
    } else if i == 3 {
    } else if i == 4 {
    } else if i == 5 {
    } else if i == 6 {
    } else {
    }
}

proof fn lemma_prefix_chars(i: int)
    requires
        0 <= i < 17,
    ensures
        is_name_char(METRIC_PREFIX@[i]),
{
    reveal_strlit("ton_node_simplex_");
    if i == 0 {
    } else if i == 1 {
    } else if i == 2 {
    } else if i == 3 {
    } else if i == 4 {
    } else if i == 5 {
    } else if i == 6 {
    } else if i == 7 {
    } else if i == 8 {
    } else if i == 9 {
    } else if i == 10 {
    } else if i == 11 {
    } else if i == 12 {
    } else if i == 13 {
    } else if i == 14 {
    } else if i == 15 {
    } else {
    }
}

/// What is left of `text` is an end of it that starts with no prefix.
proof fn lemma_stripped(text: Seq<char>)
    ensures
        stripped(text).len() <= text.len(),
        stripped(text) == text.skip(text.len() - stripped(text).len()),
        !METRIC_PREFIX@.is_prefix_of(stripped(text)),
        !SESSION_PREFIX@.is_prefix_of(stripped(text)),
    decreases text.len(),
{
    lemma_prefixes();
    if METRIC_PREFIX@.is_prefix_of(text) {
        lemma_stripped(text.skip(17));
        assert(stripped(text) =~= text.skip(text.len() - stripped(text).len()));
    } else if SESSION_PREFIX@.is_prefix_of(text) {
        lemma_stripped(text.skip(8));
        assert(stripped(text) =~= text.skip(text.len() - stripped(text).len()));
    } else {
        assert(text.skip(0) =~= text);
    }
}

/// Every published name starts with the common prefix, once, and holds neither
/// a dot nor a colon.
pub proof fn published_names_are_clean(key: Seq<char>)
    ensures
        METRIC_PREFIX@.is_prefix_of(sanitized(key)),
        !METRIC_PREFIX@.is_prefix_of(sanitized(key).skip(METRIC_PREFIX@.len() as int)),
        forall|i: int| 0 <= i < sanitized(key).len() ==> !invalid(#[trigger] sanitized(key)[i]),
{
    lemma_prefixes();
    lemma_stripped(cleaned(key));
    let name = sanitized(key);
    let rest = stripped(cleaned(key));
    assert(name.subrange(0, 17) =~= METRIC_PREFIX@);
    assert(name.skip(17) =~= rest);
    assert forall|i: int| 0 <= i < name.len() implies !invalid(#[trigger] name[i]) by {
        if i < 17 {
            assert(name[i] == METRIC_PREFIX@[i]);
        } else {
            assert(name[i] == cleaned(key)[key.len() - rest.len() + i - 17]);
        }
    }
}

/// Whether a character is an ASCII letter.
pub open spec fn is_letter(ch: char) -> bool {
    'a' <= ch <= 'z' || 'A' <= ch <= 'Z'
}

/// Whether a character may stand in a published name.
pub open spec fn is_name_char(ch: char) -> bool {
    is_letter(ch) || '0' <= ch <= '9' || ch == '_'
}

/// A key of letters, digits, underscores, dots and colons is published under a
/// name that starts with a letter and goes on with letters, digits and
/// underscores.
pub proof fn published_names_are_valid(key: Seq<char>)
    requires
        forall|i: int| 0 <= i < key.len() ==> is_name_char(#[trigger] key[i]) || invalid(key[i]),
    ensures
        is_letter(sanitized(key)[0]),
        forall|i: int| 0 <= i < sanitized(key).len() ==> is_name_char(#[trigger] sanitized(key)[i]),
{
    lemma_prefixes();
    reveal_strlit("ton_node_simplex_");
    let name = sanitized(key);
    let rest = stripped(cleaned(key));
    lemma_stripped(cleaned(key));
    assert(name[0] == METRIC_PREFIX@[0]);
    assert forall|i: int| 0 <= i < name.len() implies is_name_char(#[trigger] name[i]) by {
        if i < 17 {
            assert(name[i] == METRIC_PREFIX@[i]);
            lemma_prefix_chars(i);
        } else {
            let k = key.len() - rest.len() + i - 17;
            assert(name[i] == cleaned(key)[k]);
            assert(is_name_char(key[k]) || invalid(key[k]));
        }
    }
}

/// A name that was published is published under itself.
pub proof fn publishing_twice_changes_nothing(key: Seq<char>)
    ensures
        sanitized(sanitized(key)) == sanitized(key),
{
    published_names_are_clean(key);
    lemma_prefixes();
    lemma_stripped(cleaned(key));
    let name = sanitized(key);
    let rest = stripped(cleaned(key));
    assert(cleaned(name) =~= name);
    assert(name.skip(17) =~= rest);
    assert(stripped(name) == stripped(rest));
}

/// A key is published under the same name with either prefix in front of it.
pub proof fn common_prefix_is_not_doubled(key: Seq<char>)
    ensures
        sanitized(METRIC_PREFIX@ + key) == sanitized(key),
        sanitized(SESSION_PREFIX@ + key) == sanitized(key),
{
    lemma_prefixes();
    let long = cleaned(METRIC_PREFIX@ + key);
    assert(long.subrange(0, 17) =~= METRIC_PREFIX@) by {
        assert(long.subrange(0, 17) =~= cleaned(METRIC_PREFIX@));
    }
    assert(long.skip(17) =~= cleaned(key));
    let short = cleaned(SESSION_PREFIX@ + key);
    assert(short.subrange(0, 8) =~= SESSION_PREFIX@) by {
        assert(short.subrange(0, 8) =~= cleaned(SESSION_PREFIX@));
    }
    assert(short.skip(8) =~= cleaned(key));
    assert(!METRIC_PREFIX@.is_prefix_of(short)) by {
        reveal_strlit("ton_node_simplex_");
        reveal_strlit("simplex_");
        if METRIC_PREFIX@.is_prefix_of(short) {
            assert(short.subrange(0, 17)[0] == METRIC_PREFIX@[0]);
            assert(short.subrange(0, 8)[0] == SESSION_PREFIX@[0]);
        }
    }
}

/// A published name keeps the key: one that brings no prefix along stands whole behind
/// the common prefix, letter for letter, but for underscores in place of dots and
/// colons.
pub proof fn published_names_keep_the_key(key: Seq<char>)
    requires
        forall|i: int| 0 <= i < key.len() ==> (#[trigger] key[i]) != '.' && key[i] != ':',
        !METRIC_PREFIX@.is_prefix_of(key),
        !SESSION_PREFIX@.is_prefix_of(key),
    ensures
        sanitized(key) == METRIC_PREFIX@ + key,
{
    assert(cleaned(key) =~= key);
}

/// Dots and colons, and nothing else, become underscores: a key is published under the
/// same name as the key with underscores in their places, and that has as many letters.
pub proof fn dots_become_underscores(key: Seq<char>, other: Seq<char>)
    requires
        key.len() == other.len(),
        forall|i: int|
            0 <= i < key.len() ==> #[trigger] other[i] == (if key[i] == '.' || key[i] == ':' {
                '_'
            } else {
                key[i]
            }),
    ensures
        sanitized(key) == sanitized(other),
        cleaned(key) == other,
{
    assert(cleaned(key) =~= other);
    assert(cleaned(other) =~= other);
}

/// A session is always told by its shard, and by its identifier exactly if that is asked
/// for.
pub proof fn sessions_are_labelled(strategy: PrometheusLabels, identity: SessionIdentity)
    ensures
        ({
            let labels = labels_of(strategy, identity);
            &&& labels[0] == ("shard"@, identity.shard@)
            &&& strategy is ShardOnly ==> labels.len() == 1
            &&& strategy is ShardAndSessionId ==> labels.len() == 2 && labels[1] == (
                "session_id"@,
                identity.session_id8@,
            )
        }),
{
}

} // verus!
