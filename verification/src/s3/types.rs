//! S3 value types: byte ranges, notification filters and configurations.
use vstd::prelude::*;
use crate::text::{
    chars_to_string, ends_with, eq_ignore_ascii_case, eq_ignore_case, is_prefix, is_suffix,
    parse_u64, parse_u64_spec, split_char, split_on, starts_with, to_chars, views,
};

verus! {

/// A requested byte range of an object: from `start` to `end`, both included.
#[derive(Debug, Clone, Copy, PartialEq, Eq)]
pub struct ByteRange {
    pub start: u64,
    pub end: Option<u64>,
}

/// `n - 1`, or 0 when `n` is 0.
pub open spec fn last_index(total: u64) -> u64 {
    if total == 0 { 0 } else { (total - 1) as u64 }
}

/// `a - b`, or 0 when `b` exceeds `a`.
pub open spec fn saturating_sub(a: u64, b: u64) -> u64 {
    if b > a { 0 } else { (a - b) as u64 }
}

/// The range that a `Range` header value asks for in an object of `total` bytes:
/// `bytes=a-b`, `bytes=a-` or `bytes=-n`; the end is clamped to the last byte.
pub open spec fn byte_range_of(header: Seq<char>, total: u64) -> Option<ByteRange> {
    if !is_prefix(seq!['b', 'y', 't', 'e', 's', '='], header) {
        None
    } else {
        let parts = split_on(header.subrange(6, header.len() as int), '-');
        if parts.len() != 2 {
            None
        } else if parts[0].len() == 0 {
            match parse_u64_spec(parts[1]) {
                Some(n) => Some(ByteRange { start: saturating_sub(total, n), end: Some(last_index(total)) }),
                None => None,
            }
        } else {
            match parse_u64_spec(parts[0]) {
                None => None,
                Some(start) => if parts[1].len() == 0 {
                    Some(ByteRange { start, end: Some(last_index(total)) })
                } else {
                    match parse_u64_spec(parts[1]) {
                        Some(e) => Some(ByteRange {
                            start,
                            end: Some(if e < last_index(total) { e } else { last_index(total) }),
                        }),
                        None => None,
                    }
                },
            }
        }
    }
}

/// A suffix range `bytes=-n`, for `n` from 1 up to the object's size, reads
/// exactly the last `n` bytes: it starts at `total - n` and ends at the last byte.
pub proof fn law_suffix_range_reads_last_bytes(digits: Seq<char>, total: u64, n: u64)
    requires
        parse_u64_spec(digits) == Some(n),
        0 < n <= total,
    ensures
        byte_range_of(seq!['b', 'y', 't', 'e', 's', '=', '-'] + digits, total) == Some(
            ByteRange { start: (total - n) as u64, end: Some((total - 1) as u64) },
        ),
{
    let header = seq!['b', 'y', 't', 'e', 's', '=', '-'] + digits;
    assert(header.subrange(0, 6) =~= seq!['b', 'y', 't', 'e', 's', '=']);
    assert(header.subrange(6, header.len() as int) =~= seq!['-'] + digits);
    crate::text::lemma_parsed_has_no_dash(digits);
    crate::text::lemma_split_on_leading_separator(digits, '-');
    let parts = split_on(header.subrange(6, header.len() as int), '-');
    assert(parts == seq![Seq::<char>::empty(), digits]);
    assert(parts[1] == digits);
}

/// A range `bytes=a-b` with `a <= b` reads from byte `a` to byte `b`, the end
/// cut back to the last byte when `b` lies past it.
pub proof fn law_explicit_range_reads_from_first_to_last(da: Seq<char>, db: Seq<char>, total: u64, a: u64, b: u64)
    requires
        parse_u64_spec(da) == Some(a),
        parse_u64_spec(db) == Some(b),
        a <= b,
        0 < total,
    ensures
        byte_range_of(seq!['b', 'y', 't', 'e', 's', '='] + da + seq!['-'] + db, total) == Some(
            ByteRange { start: a, end: Some(if b < total { b } else { (total - 1) as u64 }) },
        ),
{
    let header = seq!['b', 'y', 't', 'e', 's', '='] + da + seq!['-'] + db;
    assert(header.subrange(0, 6) =~= seq!['b', 'y', 't', 'e', 's', '=']);
    assert(header.subrange(6, header.len() as int) =~= da + seq!['-'] + db);
    crate::text::lemma_parsed_has_no_dash(da);
    crate::text::lemma_parsed_has_no_dash(db);
    crate::text::lemma_split_on_one_separator(da, db, '-');
    let parts = split_on(header.subrange(6, header.len() as int), '-');
    assert(parts == seq![da, db]);
    assert(parts[0] == da && parts[1] == db);
    assert(da.len() > 0 && db.len() > 0);
}

impl ByteRange {
    /// Reads a `Range` header value for an object of `total_size` bytes.
    pub fn parse(header_val: &str, total_size: u64) -> (r: Option<ByteRange>)
        ensures
            r == byte_range_of(header_val@, total_size),
    {
        let ghost lit = seq!['b', 'y', 't', 'e', 's', '='];
        if !starts_with(header_val, "bytes=") {
            proof { reveal_strlit("bytes="); assert("bytes="@ =~= lit); }
            return None;
        }
        proof { reveal_strlit("bytes="); assert("bytes="@ =~= lit); }
        let x = to_chars(header_val);
        let rest = chars_to_string(x.as_slice(), 6, x.len());
        let parts = split_char(rest.as_str(), '-');
        assert(views(parts@).len() == parts@.len());
        if parts.len() != 2 {
            return None;
        }
        assert(parts@[0]@ == views(parts@)[0]);
        assert(parts@[1]@ == views(parts@)[1]);
        let last = if total_size == 0 { 0 } else { total_size - 1 };
        if parts[0].as_str().is_empty() {
            match parse_u64(parts[1].as_str()) {
                Some(n) => {
                    let start = if n > total_size { 0 } else { total_size - n };
                    Some(ByteRange { start, end: Some(last) })
                },
                None => None,
            }
        } else {
            match parse_u64(parts[0].as_str()) {
                None => None,
                Some(start) => {
                    if parts[1].as_str().is_empty() {
                        Some(ByteRange { start, end: Some(last) })
                    } else {
                        match parse_u64(parts[1].as_str()) {
                            Some(e) => Some(ByteRange { start, end: Some(if e < last { e } else { last }) }),
                            None => None,
                        }
                    }
                },
            }
        }
    }
}

/// One rule of a key filter: `name` is "prefix" or "suffix" (in any case).
#[derive(Debug, Clone, Default)]
pub struct NotificationFilterRule {
    pub name: String,
    pub value: String,
}

/// A key filter of a notification configuration.
#[derive(Debug, Clone, Default)]
pub struct NotificationFilter {
    pub rules: Vec<NotificationFilterRule>,
}

/// One rule lets `key` through: a prefix rule needs its value as a prefix of the
/// key, a suffix rule needs it as a suffix, and any other rule lets every key through.
pub open spec fn rule_admits(rule: NotificationFilterRule, key: Seq<char>) -> bool {
    &&& eq_ignore_case(rule.name@, seq!['p', 'r', 'e', 'f', 'i', 'x']) ==> is_prefix(rule.value@, key)
    &&& eq_ignore_case(rule.name@, seq!['s', 'u', 'f', 'f', 'i', 'x']) ==> is_suffix(rule.value@, key)
}

/// A filter lets `key` through when each of its rules does.
pub open spec fn filter_admits(rules: Seq<NotificationFilterRule>, key: Seq<char>) -> bool {
    forall|i: int| 0 <= i < rules.len() ==> rule_admits(#[trigger] rules[i], key)
}

impl NotificationFilter {
    /// Whether `key` passes every rule of the filter.
    pub fn matches(&self, key: &str) -> (r: bool)
        ensures
            r == filter_admits(self.rules@, key@),
    {
        proof {
            reveal_strlit("prefix");
            reveal_strlit("suffix");
            assert("prefix"@ =~= seq!['p', 'r', 'e', 'f', 'i', 'x']);
            assert("suffix"@ =~= seq!['s', 'u', 'f', 'f', 'i', 'x']);
        }
        let mut i: usize = 0;
        while i < self.rules.len()
            invariant
                i <= self.rules@.len(),
                "prefix"@ == seq!['p', 'r', 'e', 'f', 'i', 'x'],
                "suffix"@ == seq!['s', 'u', 'f', 'f', 'i', 'x'],
                forall|j: int| 0 <= j < i ==> rule_admits(#[trigger] self.rules@[j], key@),
            decreases self.rules.len() - i,
        {
            let rule = &self.rules[i];
            if eq_ignore_ascii_case(rule.name.as_str(), "prefix") && !starts_with(key, rule.value.as_str()) {
                assert(!rule_admits(self.rules@[i as int], key@));
                return false;
            }
            if eq_ignore_ascii_case(rule.name.as_str(), "suffix") && !ends_with(key, rule.value.as_str()) {
                assert(!rule_admits(self.rules@[i as int], key@));
                return false;
            }
            i = i + 1;
        }
        true
    }
}

/// Notifications of a bucket's events sent to an SQS queue.
#[derive(Debug, Clone, Default)]
pub struct QueueNotificationConfig {
    pub id: String,
    pub queue_arn: String,
    pub events: Vec<String>,
    pub filter: Option<NotificationFilter>,
}

/// Notifications of a bucket's events sent to an SNS topic.
#[derive(Debug, Clone, Default)]
pub struct TopicNotificationConfig {
    pub id: String,
    pub topic_arn: String,
    pub events: Vec<String>,
    pub filter: Option<NotificationFilter>,
}

/// Where a bucket's events are sent.
#[derive(Debug, Clone, Default)]
pub struct BucketNotificationConfig {
    pub queue_configurations: Vec<QueueNotificationConfig>,
    pub topic_configurations: Vec<TopicNotificationConfig>,
    pub eventbridge_enabled: bool,
}

impl BucketNotificationConfig {
    /// No queue, no topic and no EventBridge delivery is configured.
    pub open spec fn spec_is_empty(&self) -> bool {
        self.queue_configurations@.len() == 0 && self.topic_configurations@.len() == 0
            && !self.eventbridge_enabled
    }

    /// Whether nothing is configured.
    pub fn is_empty(&self) -> (r: bool)
        ensures
            r == self.spec_is_empty(),
    {
        self.queue_configurations.len() == 0 && self.topic_configurations.len() == 0
            && !self.eventbridge_enabled
    }
}


/// A lifecycle rule of a bucket: its id, whether it is on (`Enabled` or
/// `Disabled`), the key prefix it applies to and after how many days objects
/// expire.
#[derive(Debug, Clone)]
pub struct LifecycleRule {
    pub id: Option<String>,
    pub status: String,
    pub prefix: Option<String>,
    pub expiration_days: Option<i32>,
}

/// The lifecycle rules of a bucket.
#[derive(Debug, Clone, Default)]
pub struct BucketLifecycleConfig {
    pub rules: Vec<LifecycleRule>,
}

/// A CORS rule of a bucket: the methods, origins and headers it allows, the
/// headers it exposes, and how long a preflight answer may be cached.
#[derive(Debug, Clone)]
pub struct CorsRule {
    pub id: Option<String>,
    pub allowed_methods: Vec<String>,
    pub allowed_origins: Vec<String>,
    pub allowed_headers: Vec<String>,
    pub expose_headers: Vec<String>,
    pub max_age_seconds: Option<i32>,
}

/// The CORS rules of a bucket.
#[derive(Debug, Clone, Default)]
pub struct BucketCorsConfig {
    pub rules: Vec<CorsRule>,
}

} // verus!
