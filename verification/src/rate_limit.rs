//! Token buckets that hold the writes of an owner to a rate.

use vstd::prelude::*;
use vstd::string::*;

use crate::json::member;
use crate::json::Json;
use crate::json::JsonModel;
use crate::json::JsonNumber;
use crate::json::NumberModel;
use crate::ordered::OrdMap;
use crate::text::ascii_alphanumeric;
use crate::text::chars_of;
use crate::text::is_ascii_alphanumeric;
use crate::text::lower_char;
use crate::text::lowercase;
use crate::text::opt_text;
use crate::text::parse_signed;
use crate::text::parse_signed_of;
use crate::text::same;
use crate::text::signed_decimal;
use crate::text::signed_decimal_of;
use crate::text::strip_end_char;
use crate::text::strip_start_char;
use crate::text::to_lower_char;
use crate::text::to_lowercase;
use crate::text::trim;
use crate::text::trim_end_char;
use crate::text::trim_start_char;
use crate::text::trimmed;
use crate::time::elapsed_nanos;
use crate::time::elapsed_nanos_of;
use crate::time::rfc3339_text;
use crate::time::rfc3339_time;
use crate::time::Timestamp;

verus! {

/// The tokens of one owner for one class of actions.
#[derive(Clone, Debug, PartialEq, Eq)]
pub struct RuntimeRateLimitBucket {
    pub owner_id: String,
    pub action_class: String,
    pub tokens: i64,
    pub capacity: i64,
    pub refill_per_second: i64,
    pub last_refill_at: Timestamp,
}

/// What a bucket holds.
pub struct BucketModel {
    pub owner_id: Seq<char>,
    pub action_class: Seq<char>,
    pub tokens: i64,
    pub capacity: i64,
    pub refill_per_second: i64,
    pub last_refill_at: Timestamp,
}

impl View for RuntimeRateLimitBucket {
    type V = BucketModel;

    open spec fn view(&self) -> BucketModel {
        BucketModel {
            owner_id: self.owner_id@,
            action_class: self.action_class@,
            tokens: self.tokens,
            capacity: self.capacity,
            refill_per_second: self.refill_per_second,
            last_refill_at: self.last_refill_at,
        }
    }
}

/// A bucket never holds more than its capacity, nor less than nothing.
pub open spec fn within_capacity(b: BucketModel) -> bool {
    &&& 0 <= b.tokens <= b.capacity
    &&& 0 <= b.refill_per_second
}

/// Why a write is held back.
#[derive(Clone, Debug, PartialEq, Eq)]
pub struct CommonsRateLimitExceeded {
    pub owner_id: String,
    pub action_class: String,
    pub retry_after_secs: Option<i64>,
}

/// Why a write is not let through.
#[derive(Clone, Debug, PartialEq, Eq)]
pub enum CommonsRateLimitError {
    Exceeded(CommonsRateLimitExceeded),
    Internal(String),
}

/// What a [`CommonsRateLimitError`] holds.
pub enum RateLimitErrorModel {
    Exceeded { owner_id: Seq<char>, action_class: Seq<char>, retry_after_secs: Option<i64> },
    Internal(Seq<char>),
}

impl View for CommonsRateLimitError {
    type V = RateLimitErrorModel;

    open spec fn view(&self) -> RateLimitErrorModel {
        match self {
            Self::Exceeded(e) => RateLimitErrorModel::Exceeded {
                owner_id: e.owner_id@,
                action_class: e.action_class@,
                retry_after_secs: e.retry_after_secs,
            },
            Self::Internal(s) => RateLimitErrorModel::Internal(s@),
        }
    }
}

/// The text of an error.
pub open spec fn error_text(e: RateLimitErrorModel) -> Seq<char> {
    match e {
        RateLimitErrorModel::Exceeded { owner_id, action_class, retry_after_secs } => {
            let head = "rate limit exceeded for owner '"@ + owner_id + "' action class '"@
                + action_class + "'"@;
            match retry_after_secs {
                Some(n) => head + " (retry after "@ + signed_decimal(n as int) + "s)"@,
                None => head,
            }
        },
        RateLimitErrorModel::Internal(s) => s,
    }
}

impl CommonsRateLimitError {
    /// The text of the error.
    pub fn message(&self) -> (r: String)
        ensures
            r@ == error_text(self@),
    {
        match self {
            Self::Exceeded(e) => {
                let mut text = "rate limit exceeded for owner '".to_owned();
                text.append(e.owner_id.as_str());
                text.append("' action class '");
                text.append(e.action_class.as_str());
                text.append("'");
                match e.retry_after_secs {
                    Some(n) => {
                        text.append(" (retry after ");
                        text.append(signed_decimal_of(n).as_str());
                        text.append("s)");
                    },
                    None => {},
                }
                text
            },
            Self::Internal(s) => s.clone(),
        }
    }
}

/// The field `key`, under its name or under its name in lower case.
pub open spec fn field(fields: JsonModel, key: Seq<char>) -> Option<JsonModel> {
    match member(fields, key) {
        Some(v) => Some(v),
        None => member(fields, lowercase(key)),
    }
}

/// The text of the field `key`, without white space around it; none where it is
/// empty.
pub open spec fn string_field(fields: JsonModel, key: Seq<char>) -> Option<Seq<char>> {
    match field(fields, key) {
        Some(JsonModel::Text(s)) => if trimmed(s).len() > 0 {
            Some(trimmed(s))
        } else {
            None
        },
        _ => None,
    }
}

/// A JSON number as a 64-bit integer: its floor, held to the range.
pub open spec fn number_floor(n: NumberModel) -> i64 {
    match n {
        NumberModel::Unsigned(u) => if u <= i64::MAX {
            u as i64
        } else {
            i64::MAX
        },
        NumberModel::Negative(i) => i,
        NumberModel::Float { floor, .. } => floor,
    }
}

/// The number of the field `key`: a number, or a text that writes an integer.
pub open spec fn integer_field(fields: JsonModel, key: Seq<char>) -> Option<int> {
    match field(fields, key) {
        Some(JsonModel::Number(n)) => Some(number_floor(n) as int),
        Some(JsonModel::Text(s)) => parse_signed(s),
        _ => None,
    }
}

fn field_of<'a>(fields: &'a Json, key: &str) -> (r: Option<&'a Json>)
    ensures
        crate::json::opt_model(r) == field(fields@, key@),
{
    match fields.get(key) {
        Some(v) => Some(v),
        None => fields.get(to_lowercase(key).as_str()),
    }
}

/// The text of the field `key`.
pub fn read_string(fields: &Json, key: &str) -> (r: Option<String>)
    ensures
        opt_text(r) == string_field(fields@, key@),
{
    match field_of(fields, key) {
        Some(v) => match v.as_text() {
            Some(s) => {
                let t = trim(s);
                if t.as_str().is_empty() {
                    None
                } else {
                    Some(t)
                }
            },
            None => None,
        },
        None => None,
    }
}

/// The number of the field `key`.
pub fn read_i64(fields: &Json, key: &str) -> (r: Option<i64>)
    ensures
        match r {
            Some(n) => integer_field(fields@, key@) == Some(n as int),
            None => integer_field(fields@, key@) is None,
        },
{
    match field_of(fields, key) {
        Some(Json::Number(n)) => match n {
            JsonNumber::Unsigned(u) => if *u <= i64::MAX as u64 {
                Some(*u as i64)
            } else {
                Some(i64::MAX)
            },
            JsonNumber::Negative(i) => Some(*i),
            JsonNumber::Float { floor, .. } => Some(*floor),
        },
        Some(Json::Text(s)) => parse_signed_of(s.as_str()),
        _ => None,
    }
}

pub open spec fn at_least_zero(n: int) -> int {
    if n > 0 {
        n
    } else {
        0
    }
}

/// The bucket that the fields of an entity describe, or which field is missing.
/// Without a time of its last refill it counts as refilled now.
pub open spec fn described_bucket(
    fields: JsonModel,
    now: Timestamp,
) -> Result<BucketModel, RateLimitErrorModel> {
    if string_field(fields, "OwnerId"@) is None {
        Err(RateLimitErrorModel::Internal("RateLimit.OwnerId missing"@))
    } else if string_field(fields, "ActionClass"@) is None {
        Err(RateLimitErrorModel::Internal("RateLimit.ActionClass missing"@))
    } else if integer_field(fields, "Capacity"@) is None {
        Err(RateLimitErrorModel::Internal("RateLimit.Capacity missing"@))
    } else if integer_field(fields, "Tokens"@) is None {
        Err(RateLimitErrorModel::Internal("RateLimit.Tokens missing"@))
    } else if integer_field(fields, "RefillPerSecond"@) is None {
        Err(RateLimitErrorModel::Internal("RateLimit.RefillPerSecond missing"@))
    } else {
        let capacity = at_least_zero(integer_field(fields, "Capacity"@)->0);
        let tokens = at_least_zero(integer_field(fields, "Tokens"@)->0);
        let refilled = match string_field(fields, "LastRefillAt"@) {
            Some(text) => rfc3339_time(text),
            None => None,
        };
        Ok(
            BucketModel {
                owner_id: string_field(fields, "OwnerId"@)->0,
                action_class: string_field(fields, "ActionClass"@)->0,
                tokens: (if tokens > capacity {
                    capacity
                } else {
                    tokens
                }) as i64,
                capacity: capacity as i64,
                refill_per_second: at_least_zero(integer_field(fields, "RefillPerSecond"@)->0)
                    as i64,
                last_refill_at: match refilled {
                    Some((secs, nanos)) => Timestamp { secs, nanos },
                    None => now,
                },
            },
        )
    }
}

/// How many tokens a bucket holds at `now`: one second brings
/// `refill_per_second` of them, and the capacity is never passed.
pub open spec fn tokens_at(b: BucketModel, now: Timestamp) -> int {
    let brought = (elapsed_nanos(now, b.last_refill_at) / 1_000_000_000) * b.refill_per_second;
    if b.tokens + brought > b.capacity {
        b.capacity as int
    } else {
        b.tokens + brought
    }
}

/// A bucket at `now`.
pub open spec fn refilled(b: BucketModel, now: Timestamp) -> BucketModel {
    BucketModel { tokens: tokens_at(b, now) as i64, last_refill_at: now, ..b }
}

impl RuntimeRateLimitBucket {
    pub fn copy(&self) -> (r: Self)
        ensures
            r@ == self@,
    {
        RuntimeRateLimitBucket {
            owner_id: self.owner_id.clone(),
            action_class: self.action_class.clone(),
            tokens: self.tokens,
            capacity: self.capacity,
            refill_per_second: self.refill_per_second,
            last_refill_at: self.last_refill_at,
        }
    }

    /// The bucket that the fields of an entity describe.
    pub fn from_fields(fields: &Json, now: Timestamp) -> (r: Result<Self, CommonsRateLimitError>)
        ensures
            match r {
                Ok(b) => described_bucket(fields@, now) == Ok::<
                    BucketModel,
                    RateLimitErrorModel,
                >(b@) && within_capacity(b@),
                Err(e) => described_bucket(fields@, now) == Err::<
                    BucketModel,
                    RateLimitErrorModel,
                >(e@),
            },
    {
        let owner_id = match read_string(fields, "OwnerId") {
            Some(s) => s,
            None => return Err(
                CommonsRateLimitError::Internal("RateLimit.OwnerId missing".to_owned()),
            ),
        };
        let action_class = match read_string(fields, "ActionClass") {
            Some(s) => s,
            None => return Err(
                CommonsRateLimitError::Internal("RateLimit.ActionClass missing".to_owned()),
            ),
        };
        let capacity: i64 = match read_i64(fields, "Capacity") {
            Some(n) => if n > 0 {
                n
            } else {
                0
            },
            None => return Err(
                CommonsRateLimitError::Internal("RateLimit.Capacity missing".to_owned()),
            ),
        };
        let tokens: i64 = match read_i64(fields, "Tokens") {
            Some(n) => if n > capacity {
                capacity
            } else if n > 0 {
                n
            } else {
                0
            },
            None => return Err(
                CommonsRateLimitError::Internal("RateLimit.Tokens missing".to_owned()),
            ),
        };
        let refill_per_second: i64 = match read_i64(fields, "RefillPerSecond") {
            Some(n) => if n > 0 {
                n
            } else {
                0
            },
            None => return Err(
                CommonsRateLimitError::Internal("RateLimit.RefillPerSecond missing".to_owned()),
            ),
        };
        let last_refill_at = match read_string(fields, "LastRefillAt") {
            Some(text) => match Timestamp::parse_rfc3339(text.as_str()) {
                Some(t) => t,
                None => now,
            },
            None => now,
        };
        Ok(
            RuntimeRateLimitBucket {
                owner_id,
                action_class,
                tokens,
                capacity,
                refill_per_second,
                last_refill_at,
            },
        )
    }

    /// Brings the tokens of the time since the last refill.
    pub fn refill_to(&mut self, now: Timestamp)
        requires
            within_capacity(old(self)@),
        ensures
            final(self)@ == refilled(old(self)@, now),
            within_capacity(final(self)@),
    {
        let nanos: u128 = elapsed_nanos_of(now, self.last_refill_at);
        let secs: u128 = nanos / 1_000_000_000;
        if secs > 0 && self.refill_per_second > 0 {
            let held: u128 = if secs > i64::MAX as u128 {
                i64::MAX as u128
            } else {
                secs
            };
            let rate: u128 = self.refill_per_second as u128;
            proof {
                assert(held * rate <= 0x7fff_ffff_ffff_ffff * 0x7fff_ffff_ffff_ffff) by (
                    nonlinear_arith)
                    requires
                        held <= 0x7fff_ffff_ffff_ffff,
                        rate <= 0x7fff_ffff_ffff_ffff,
                ;
                assert(held * rate >= held) by (nonlinear_arith)
                    requires
                        rate >= 1,
                ;
                assert(secs * rate >= secs) by (nonlinear_arith)
                    requires
                        rate >= 1,
                ;
            }
            let total: u128 = self.tokens as u128 + held * rate;
            if total > self.capacity as u128 {
                self.tokens = self.capacity;
            } else {
                self.tokens = total as i64;
            }
        } else {
            proof {
                assert(secs * self.refill_per_second == 0) by (nonlinear_arith)
                    requires
                        secs == 0 || self.refill_per_second == 0,
                ;
            }
        }
        self.last_refill_at = now;
    }

    /// Why a write that found no token is held back: one second brings the next
    /// token where any are brought at all.
    pub fn exceeded(&self) -> (r: CommonsRateLimitExceeded)
        ensures
            r.owner_id@ == self.owner_id@,
            r.action_class@ == self.action_class@,
            r.retry_after_secs == if self.refill_per_second > 0 {
                Some(1i64)
            } else {
                None
            },
    {
        let retry_after_secs: Option<i64> = if self.refill_per_second > 0 {
            Some(1)
        } else {
            None
        };
        CommonsRateLimitExceeded {
            owner_id: self.owner_id.clone(),
            action_class: self.action_class.clone(),
            retry_after_secs,
        }
    }
}

/// The entity of a bucket, as it was read.
#[derive(Debug, PartialEq, Eq)]
pub struct StoredBucket {
    pub status: String,
    pub fields: Json,
}

/// The bucket of an entity: none where there is no such entity or it is not
/// active, so that the write is not limited.
pub fn load_runtime_rate_limit_bucket(
    bucket_id: &str,
    entity: &Option<Result<StoredBucket, String>>,
    now: Timestamp,
) -> (r: Result<Option<RuntimeRateLimitBucket>, CommonsRateLimitError>)
    ensures
        match *entity {
            None => r == Ok::<Option<RuntimeRateLimitBucket>, CommonsRateLimitError>(None),
            Some(Err(e)) => r is Err && r->Err_0@ == RateLimitErrorModel::Internal(
                "failed to load rate-limit bucket "@ + bucket_id@ + ": "@ + e@,
            ),
            Some(Ok(stored)) => if stored.status@ != "Active"@ {
                r == Ok::<Option<RuntimeRateLimitBucket>, CommonsRateLimitError>(None)
            } else {
                match r {
                    Ok(b) => b is Some && described_bucket(stored.fields@, now) == Ok::<
                        BucketModel,
                        RateLimitErrorModel,
                    >(b->0@) && within_capacity(b->0@),
                    Err(e) => described_bucket(stored.fields@, now) == Err::<
                        BucketModel,
                        RateLimitErrorModel,
                    >(e@),
                }
            },
        },
{
    match entity {
        None => Ok(None),
        Some(Err(e)) => {
            let mut text = "failed to load rate-limit bucket ".to_owned();
            text.append(bucket_id);
            text.append(": ");
            text.append(e.as_str());
            Err(CommonsRateLimitError::Internal(text))
        },
        Some(Ok(stored)) => {
            if !same(stored.status.as_str(), "Active") {
                return Ok(None);
            }
            match RuntimeRateLimitBucket::from_fields(&stored.fields, now) {
                Ok(bucket) => Ok(Some(bucket)),
                Err(e) => Err(e),
            }
        },
    }
}

/// The parameters with which a taken token is recorded. None where the time
/// cannot be written.
pub fn consume_params(taken: &TakenToken) -> (r: Option<Json>)
    requires
        taken.tokens_after_consume >= 0,
    ensures
        match rfc3339_text(taken.refill_time.secs, taken.refill_time.nanos) {
            None => r is None,
            Some(time) => r is Some && r->0@ == JsonModel::Object(
                seq![
                    ("LastRefillAt"@, JsonModel::Text(time)),
                    (
                        "Tokens"@,
                        JsonModel::Number(
                            NumberModel::Unsigned(taken.tokens_after_consume as u64),
                        ),
                    ),
                ],
            ),
        },
{
    match taken.refill_time.to_rfc3339() {
        None => None,
        Some(time) => {
            let ghost shown = time@;
            let mut members: Vec<(String, Json)> = Vec::new();
            members.push(("LastRefillAt".to_owned(), Json::Text(time)));
            members.push(
                (
                    "Tokens".to_owned(),
                    Json::Number(JsonNumber::Unsigned(taken.tokens_after_consume as u64)),
                ),
            );
            let r = Json::Object(members);
            proof {
                crate::json::model_of_parts(r);
                assert(r@->Object_0 =~= seq![
                    ("LastRefillAt"@, JsonModel::Text(shown)),
                    (
                        "Tokens"@,
                        JsonModel::Number(
                            NumberModel::Unsigned(taken.tokens_after_consume as u64),
                        ),
                    ),
                ]);
            }
            Some(r)
        },
    }
}

/// The key of a bucket of a tenant.
pub fn bucket_cache_key(tenant: &str, owner_id: &str, action_class: &str) -> (r: String)
    ensures
        r@ == tenant@ + ":"@ + owner_id@ + ":"@ + action_class@,
{
    let mut text = tenant.to_owned();
    text.append(":");
    text.append(owner_id);
    text.append(":");
    text.append(action_class);
    text
}

/// A token that was taken: how many are left, when they were counted, and the
/// bucket as it was before.
#[derive(Clone, Debug, PartialEq, Eq)]
pub struct TakenToken {
    pub tokens_after_consume: i64,
    pub refill_time: Timestamp,
    pub bucket_before_consume: RuntimeRateLimitBucket,
}

/// Takes one token of a bucket that the cache holds. Where there is none left,
/// the bucket is refilled and the write held back.
pub fn take_token(
    buckets: &mut OrdMap<String, RuntimeRateLimitBucket>,
    cache_key: &String,
    owner_id: &str,
    action_class: &str,
    now: Timestamp,
) -> (r: Result<TakenToken, CommonsRateLimitError>)
    requires
        old(buckets).wf(),
        old(buckets)@.contains_key(cache_key@) ==> within_capacity(old(buckets)@[cache_key@]),
    ensures
        final(buckets).wf(),
        match r {
            Ok(t) => {
                let b = refilled(old(buckets)@[cache_key@], now);
                &&& old(buckets)@.contains_key(cache_key@)
                &&& b.tokens > 0
                &&& t.tokens_after_consume == b.tokens - 1
                &&& t.refill_time == now
                &&& t.bucket_before_consume@ == b
                &&& within_capacity(b)
                &&& final(buckets)@ == old(buckets)@.insert(
                    cache_key@,
                    (BucketModel { tokens: (b.tokens - 1) as i64, ..b }),
                )
            },
            Err(e) => if old(buckets)@.contains_key(cache_key@) {
                let b = refilled(old(buckets)@[cache_key@], now);
                &&& b.tokens <= 0
                &&& e@ == (RateLimitErrorModel::Exceeded {
                    owner_id: b.owner_id,
                    action_class: b.action_class,
                    retry_after_secs: if b.refill_per_second > 0 {
                        Some(1i64)
                    } else {
                        None
                    },
                })
                &&& final(buckets)@ == old(buckets)@.insert(cache_key@, b)
            } else {
                &&& e@ == RateLimitErrorModel::Internal(
                    "rate-limit bucket cache miss for "@ + owner_id@ + "/"@ + action_class@,
                )
                &&& final(buckets)@ == old(buckets)@
            },
        },
{
    match buckets.take(cache_key) {
        None => {
            proof {
                assert(old(buckets)@.remove(cache_key@) =~= old(buckets)@);
            }
            let mut text = "rate-limit bucket cache miss for ".to_owned();
            text.append(owner_id);
            text.append("/");
            text.append(action_class);
            Err(CommonsRateLimitError::Internal(text))
        },
        Some(mut bucket) => {
            bucket.refill_to(now);
            if bucket.tokens <= 0 {
                let exceeded = bucket.exceeded();
                let ghost b = bucket@;
                buckets.insert(cache_key.clone(), bucket);
                proof {
                    assert(old(buckets)@.remove(cache_key@).insert(cache_key@, b) =~= old(buckets)@.insert(cache_key@, b));
                }
                return Err(CommonsRateLimitError::Exceeded(exceeded));
            }
            let before = bucket.copy();
            bucket.tokens = bucket.tokens - 1;
            let taken = TakenToken {
                tokens_after_consume: bucket.tokens,
                refill_time: bucket.last_refill_at,
                bucket_before_consume: before,
            };
            let ghost b = bucket@;
            buckets.insert(cache_key.clone(), bucket);
            proof {
                assert(old(buckets)@.remove(cache_key@).insert(cache_key@, b) =~= old(buckets)@.insert(cache_key@, b));
            }
            Ok(taken)
        },
    }
}

/// Gives a token back: the bucket is as it was before it was taken.
pub fn restore_runtime_rate_limit_bucket(
    buckets: &mut OrdMap<String, RuntimeRateLimitBucket>,
    cache_key: &String,
    bucket: RuntimeRateLimitBucket,
)
    requires
        old(buckets).wf(),
    ensures
        final(buckets).wf(),
        final(buckets)@ == old(buckets)@.insert(cache_key@, bucket@),
{
    buckets.insert(cache_key.clone(), bucket);
}

/// How the write of a taken token to the bucket's entity ended.
#[derive(Clone, Debug, PartialEq, Eq)]
pub enum ConsumeReply {
    /// It was written.
    Applied,
    /// It was refused, with the reason that was given.
    Refused(Option<String>),
    /// It could not be sent.
    Failed(String),
}

/// What a write is told after the token was written: it goes through where the
/// token was recorded.
pub open spec fn consume_verdict(reply: ConsumeReply, bucket_id: Seq<char>) -> Option<Seq<char>> {
    match reply {
        ConsumeReply::Applied => None,
        ConsumeReply::Refused(Some(e)) => Some(e@),
        ConsumeReply::Refused(None) => Some(
            "failed to consume rate-limit bucket "@ + bucket_id,
        ),
        ConsumeReply::Failed(e) => Some("failed to persist rate-limit consume: "@ + e@),
    }
}

/// Ends the taking of a token: where it could not be recorded, the bucket is as
/// it was before.
pub fn settle_token(
    buckets: &mut OrdMap<String, RuntimeRateLimitBucket>,
    cache_key: &String,
    bucket_id: &str,
    taken: TakenToken,
    reply: &ConsumeReply,
) -> (r: Result<(), CommonsRateLimitError>)
    requires
        old(buckets).wf(),
    ensures
        final(buckets).wf(),
        match r {
            Ok(_) => consume_verdict(*reply, bucket_id@) is None && final(buckets)@ == old(buckets)@,
            Err(e) => consume_verdict(*reply, bucket_id@) is Some && e@
                == RateLimitErrorModel::Internal(consume_verdict(*reply, bucket_id@)->0) && final(buckets)@ == old(buckets)@.insert(cache_key@, taken.bucket_before_consume@),
        },
{
    let text = match reply {
        ConsumeReply::Applied => return Ok(()),
        ConsumeReply::Refused(Some(e)) => e.clone(),
        ConsumeReply::Refused(None) => {
            let mut text = "failed to consume rate-limit bucket ".to_owned();
            text.append(bucket_id);
            text
        },
        ConsumeReply::Failed(e) => rate_limit_dispatch_error(e.as_str()),
    };
    restore_runtime_rate_limit_bucket(buckets, cache_key, taken.bucket_before_consume);
    Err(CommonsRateLimitError::Internal(text))
}

/// The text of a token that could not be sent to its entity.
pub fn rate_limit_dispatch_error(error: &str) -> (r: String)
    ensures
        r@ == "failed to persist rate-limit consume: "@ + error@,
{
    let mut text = "failed to persist rate-limit consume: ".to_owned();
    text.append(error);
    text
}

/// Whether a write is limited at all: it has an owner and a class.
pub fn is_rate_limited(owner_id: &str, action_class: &str) -> (r: bool)
    ensures
        r == (trimmed(owner_id@).len() > 0 && trimmed(action_class@).len() > 0),
{
    !trim(owner_id).as_str().is_empty() && !trim(action_class).as_str().is_empty()
}

/// Whole milliseconds since the Unix epoch.
pub open spec fn epoch_millis(t: Timestamp) -> int {
    t.secs * 1_000 + t.nanos as int / 1_000_000
}

/// The key under which the taking of a token is recorded once.
pub open spec fn consume_key(
    tenant: Seq<char>,
    bucket_id: Seq<char>,
    refill_time: Timestamp,
    tokens: i64,
) -> Seq<char> {
    "commons-rate-limit:"@ + tenant + ":"@ + bucket_id + ":"@ + signed_decimal(
        epoch_millis(refill_time),
    ) + ":"@ + signed_decimal(tokens as int)
}

/// The key under which the taking of a token is recorded once.
pub fn consume_key_of(tenant: &str, bucket_id: &str, refill_time: Timestamp, tokens: i64) -> (r:
    String)
    requires
        i64::MIN <= epoch_millis(refill_time) <= i64::MAX,
    ensures
        r@ == consume_key(tenant@, bucket_id@, refill_time, tokens),
{
    let millis: i128 = refill_time.secs as i128 * 1_000 + (refill_time.nanos / 1_000_000) as i128;
    let mut text = "commons-rate-limit:".to_owned();
    text.append(tenant);
    text.append(":");
    text.append(bucket_id);
    text.append(":");
    text.append(signed_decimal_of(millis as i64).as_str());
    text.append(":");
    text.append(signed_decimal_of(tokens).as_str());
    text
}

/// A character of an identifier: letters and digits in lower case, hyphens and
/// underscores as they are, and a hyphen for anything else.
pub open spec fn slug_char(c: char) -> char {
    if ascii_alphanumeric(c) {
        lower_char(c)
    } else if c == '-' || c == '_' {
        c
    } else {
        '-'
    }
}

/// `raw` as part of an identifier.
pub open spec fn slug(raw: Seq<char>) -> Seq<char> {
    strip_end_char(strip_start_char(raw.map_values(|c: char| slug_char(c)), '-'), '-')
}

/// `raw` as part of an identifier.
pub fn rate_limit_id_slug(raw: &str) -> (r: String)
    ensures
        r@ == slug(raw@),
{
    let v = chars_of(raw);
    let mut out = String::new();
    let mut i: usize = 0;
    while i < v.len()
        invariant
            v@ == raw@,
            i <= v.len(),
            out@ == raw@.take(i as int).map_values(|c: char| slug_char(c)),
        decreases v.len() - i,
    {
        let c = v[i];
        if is_ascii_alphanumeric(c) {
            out.push(to_lower_char(c));
        } else if c == '-' || c == '_' {
            out.push(c);
        } else {
            out.push('-');
        }
        i = i + 1;
        proof {
            assert(out@ =~= raw@.take(i as int).map_values(|c: char| slug_char(c)));
        }
    }
    proof {
        assert(raw@.take(raw@.len() as int) =~= raw@);
    }
    trim_end_char(trim_start_char(out.as_str(), '-').as_str(), '-')
}

/// The identifier of the entity of a bucket.
pub fn commons_rate_limit_entity_id(owner_id: &str, action_class: &str) -> (r: String)
    ensures
        r@ == "rl-"@ + slug(owner_id@) + "-"@ + slug(action_class@),
{
    let mut text = "rl-".to_owned();
    text.append(rate_limit_id_slug(owner_id).as_str());
    text.append("-");
    text.append(rate_limit_id_slug(action_class).as_str());
    text
}

/// The class of writes.
pub fn commons_write_action_class() -> (r: &'static str)
    ensures
        r@ == "write"@,
{
    "write"
}

/// A token that was taken and could not be recorded is not lost: with the
/// bucket put back as it was before, the next write at that time finds it.
pub proof fn a_restored_token_is_found_again(b: BucketModel, now: Timestamp)
    requires
        within_capacity(b),
        tokens_at(b, now) > 0,
    ensures
        tokens_at(refilled(b, now), now) == tokens_at(b, now),
        tokens_at(refilled(b, now), now) > 0,
{
    assert(elapsed_nanos(now, now) == 0);
    assert((0nat / 1_000_000_000) * b.refill_per_second == 0) by (nonlinear_arith);
    assert(tokens_at(b, now) <= b.capacity);
    tokens_stay_within_capacity(b, now);
}

/// However long it is left, a bucket holds between nothing and its capacity,
/// and time takes no token away.
pub proof fn tokens_stay_within_capacity(b: BucketModel, now: Timestamp)
    requires
        within_capacity(b),
    ensures
        b.tokens <= tokens_at(b, now) <= b.capacity,
        within_capacity(refilled(b, now)),
{
    let n = elapsed_nanos(now, b.last_refill_at) / 1_000_000_000;
    assert(n * b.refill_per_second >= 0) by (nonlinear_arith)
        requires
            b.refill_per_second >= 0,
            n >= 0,
    ;
}

/// A bucket holds what its fields say: a count below nothing is nothing, and no
/// more tokens are taken over than the capacity. Where an owner, a class or a
/// count is missing there is no bucket, and there is one where none is.
pub proof fn a_bucket_is_what_its_fields_say(
    fields: &Json,
    now: Timestamp,
    r: Result<RuntimeRateLimitBucket, CommonsRateLimitError>,
)
    requires
        call_ensures(RuntimeRateLimitBucket::from_fields, (fields, now), r),
    ensures
        r is Ok <==> string_field(fields@, "OwnerId"@) is Some && string_field(
            fields@,
            "ActionClass"@,
        ) is Some && integer_field(fields@, "Capacity"@) is Some && integer_field(
            fields@,
            "Tokens"@,
        ) is Some && integer_field(fields@, "RefillPerSecond"@) is Some,
        r is Ok ==> {
            let b = r->Ok_0@;
            let capacity = integer_field(fields@, "Capacity"@)->0;
            let tokens = integer_field(fields@, "Tokens"@)->0;
            let refill = integer_field(fields@, "RefillPerSecond"@)->0;
            &&& Some(b.owner_id) == string_field(fields@, "OwnerId"@)
            &&& Some(b.action_class) == string_field(fields@, "ActionClass"@)
            &&& capacity >= 0 ==> b.capacity == capacity
            &&& capacity < 0 ==> b.capacity == 0
            &&& refill >= 0 ==> b.refill_per_second == refill
            &&& refill < 0 ==> b.refill_per_second == 0
            &&& 0 <= tokens <= capacity ==> b.tokens == tokens
            &&& tokens < 0 ==> b.tokens == 0
            &&& tokens > b.capacity ==> b.tokens == b.capacity
            &&& string_field(fields@, "LastRefillAt"@) is None ==> b.last_refill_at == now
        },
{
    broadcast use integers_fit;

}

broadcast proof fn integers_fit(fields: JsonModel, key: Seq<char>)
    ensures
        (#[trigger] integer_field(fields, key)) is Some ==> i64::MIN <= integer_field(fields, key)->0
            <= i64::MAX,
{
}

/// A field is read under its own name, and only without one under the name in
/// lower case.
pub proof fn a_field_is_read_under_its_own_name(fields: JsonModel, key: Seq<char>)
    ensures
        member(fields, key) is Some ==> field(fields, key) == member(fields, key),
        member(fields, key) is None ==> field(fields, key) == member(fields, lowercase(key)),
{
}

/// A bucket that is left for a number of whole seconds has that many refills
/// more, up to its capacity, and part of a second brings nothing.
pub proof fn a_second_brings_one_refill(b: BucketModel, now: Timestamp, seconds: int, rest: int)
    requires
        within_capacity(b),
        0 <= seconds,
        0 <= rest < 1_000_000_000,
        crate::time::nanos_between(now, b.last_refill_at) == seconds * 1_000_000_000 + rest,
    ensures
        b.tokens + seconds * b.refill_per_second <= b.capacity ==> refilled(b, now).tokens
            == b.tokens + seconds * b.refill_per_second,
        b.tokens + seconds * b.refill_per_second > b.capacity ==> refilled(b, now).tokens
            == b.capacity,
        refilled(b, now).last_refill_at == now,
        refilled(b, now).capacity == b.capacity,
        refilled(b, now).refill_per_second == b.refill_per_second,
        refilled(b, now).owner_id == b.owner_id,
        refilled(b, now).action_class == b.action_class,
{
    assert(elapsed_nanos(now, b.last_refill_at) / 1_000_000_000 == seconds) by {
        assert(elapsed_nanos(now, b.last_refill_at) == seconds * 1_000_000_000 + rest);
    }
    assert(seconds * b.refill_per_second >= 0) by (nonlinear_arith)
        requires
            seconds >= 0,
            b.refill_per_second >= 0,
    ;
}

/// A clock that was set back brings no token and takes none.
pub proof fn an_earlier_time_brings_nothing(b: BucketModel, now: Timestamp)
    requires
        within_capacity(b),
        crate::time::nanos_between(now, b.last_refill_at) <= 0,
    ensures
        refilled(b, now).tokens == b.tokens,
{
    assert((0nat / 1_000_000_000) * b.refill_per_second == 0) by (nonlinear_arith);
}

/// A write takes exactly one token, of its own bucket, and only where there is
/// one. A write that is refused takes none, and no write changes another
/// bucket.
pub proof fn a_write_takes_one_token()
    ensures
        forall|
            buckets: &mut OrdMap<String, RuntimeRateLimitBucket>,
            key: &String,
            owner: &str,
            class: &str,
            now: Timestamp,
            r: Result<TakenToken, CommonsRateLimitError>,
        |
            buckets.wf() && (buckets@.contains_key(key@) ==> within_capacity(buckets@[key@]))
                && #[trigger] call_ensures(take_token, (buckets, key, owner, class, now), r) ==> {
                let before = tokens_at(buckets@[key@], now);
                let after = final(buckets)@[key@];
                &&& final(buckets)@.dom() =~= buckets@.dom()
                &&& r is Ok <==> buckets@.contains_key(key@) && before > 0
                &&& r is Ok ==> after.tokens == before - 1 && r->Ok_0.tokens_after_consume == before
                    - 1 && r->Ok_0.refill_time == now && r->Ok_0.bucket_before_consume@.tokens
                    == before
                &&& r is Err && buckets@.contains_key(key@) ==> after.tokens == before && r->Err_0@
                    is Exceeded
                &&& r is Err && !buckets@.contains_key(key@) ==> r->Err_0@ is Internal
                &&& buckets@.contains_key(key@) ==> after.last_refill_at == now && after.capacity
                    == buckets@[key@].capacity
                &&& forall|k: Seq<char>|
                    k != key@ && buckets@.contains_key(k) ==> #[trigger] final(buckets)@[k]
                        == buckets@[k]
            },
{
    assert forall|
        buckets: &mut OrdMap<String, RuntimeRateLimitBucket>,
        key: &String,
        owner: &str,
        class: &str,
        now: Timestamp,
        r: Result<TakenToken, CommonsRateLimitError>,
    |
        buckets.wf() && (buckets@.contains_key(key@) ==> within_capacity(buckets@[key@]))
            && #[trigger] call_ensures(take_token, (buckets, key, owner, class, now), r) implies {
        let before = tokens_at(buckets@[key@], now);
        let after = final(buckets)@[key@];
        &&& final(buckets)@.dom() =~= buckets@.dom()
        &&& r is Ok <==> buckets@.contains_key(key@) && before > 0
        &&& r is Ok ==> after.tokens == before - 1 && r->Ok_0.tokens_after_consume == before - 1
            && r->Ok_0.refill_time == now && r->Ok_0.bucket_before_consume@.tokens == before
        &&& r is Err && buckets@.contains_key(key@) ==> after.tokens == before && r->Err_0@ is Exceeded
        &&& r is Err && !buckets@.contains_key(key@) ==> r->Err_0@ is Internal
        &&& buckets@.contains_key(key@) ==> after.last_refill_at == now && after.capacity
            == buckets@[key@].capacity
        &&& forall|k: Seq<char>|
            k != key@ && buckets@.contains_key(k) ==> #[trigger] final(buckets)@[k] == buckets@[k]
    } by {
        if buckets@.contains_key(key@) {
            tokens_stay_within_capacity(buckets@[key@], now);
        }
    }
}

/// A token that was recorded stays taken, and one that was not is given back:
/// the bucket is as before it was taken. Other buckets are as they were.
pub proof fn only_a_recorded_token_stays_taken()
    ensures
        forall|
            buckets: &mut OrdMap<String, RuntimeRateLimitBucket>,
            key: &String,
            id: &str,
            taken: TakenToken,
            reply: &ConsumeReply,
            r: Result<(), CommonsRateLimitError>,
        |
            buckets.wf() && #[trigger] call_ensures(
                settle_token,
                (buckets, key, id, taken, reply),
                r,
            ) ==> {
                &&& r is Ok <==> reply is Applied
                &&& reply is Applied ==> final(buckets)@ == buckets@
                &&& !(reply is Applied) ==> final(buckets)@.contains_key(key@) && final(buckets)@[key@]
                    == taken.bucket_before_consume@ && r->Err_0@ is Internal
                &&& forall|k: Seq<char>|
                    k != key@ && buckets@.contains_key(k) ==> final(buckets)@.contains_key(k)
                        && #[trigger] final(buckets)@[k] == buckets@[k]
            },
{
}

/// Writes that leave a bucket with different counts at one time are recorded
/// under different keys.
pub proof fn different_counts_are_recorded_apart(
    tenant: Seq<char>,
    bucket_id: Seq<char>,
    at: Timestamp,
    x: i64,
    y: i64,
)
    requires
        0 <= x,
        0 <= y,
        consume_key(tenant, bucket_id, at, x) == consume_key(tenant, bucket_id, at, y),
    ensures
        x == y,
{
    let head = "commons-rate-limit:"@ + tenant + ":"@ + bucket_id + ":"@ + signed_decimal(
        epoch_millis(at),
    ) + ":"@;
    let a = consume_key(tenant, bucket_id, at, x);
    let b = consume_key(tenant, bucket_id, at, y);
    assert(a.skip(head.len() as int) =~= crate::text::decimal(x as nat));
    assert(b.skip(head.len() as int) =~= crate::text::decimal(y as nat));
    crate::text::decimal_reads_back(x as nat);
    crate::text::decimal_reads_back(y as nat);
}

/// What a token was taken for is recorded: the time and the count that is left.
pub proof fn a_taken_token_is_recorded_as_it_is(taken: &TakenToken, r: Option<Json>)
    requires
        taken.tokens_after_consume >= 0,
        call_ensures(consume_params, (taken,), r),
        r is Some,
    ensures
        crate::json::text_member(r->0@, "LastRefillAt"@) == rfc3339_text(
            taken.refill_time.secs,
            taken.refill_time.nanos,
        ),
        integer_field(r->0@, "Tokens"@) == Some(taken.tokens_after_consume as int),
{
    let s = r->0@->Object_0;
    reveal_strlit("LastRefillAt");
    reveal_strlit("Tokens");
    assert("LastRefillAt"@.len() != "Tokens"@.len());
    assert(s[0].0 == "LastRefillAt"@);
    assert(s.drop_first()[0].0 == "Tokens"@);
    assert(crate::json::find_member(s, "LastRefillAt"@) == Some(s[0].1));
    assert(crate::json::find_member(s.drop_first(), "Tokens"@) == Some(s[1].1));
    assert(crate::json::find_member(s, "Tokens"@) == Some(s[1].1));
}

/// A text is read without the white space around it, and one with nothing else
/// in it is as good as none.
pub proof fn a_blank_text_is_no_text(fields: &Json, key: &str, r: Option<String>, s: Seq<char>)
    requires
        call_ensures(read_string, (fields, key), r),
        member(fields@, key@) == Some(JsonModel::Text(s)),
    ensures
        r is Some <==> trimmed(s).len() > 0,
        r is Some ==> r->0@ == trimmed(s),
{
}

/// A number is read as it is, up to the largest; a text is read as the number
/// that it writes; anything else is none.
pub proof fn a_number_is_read_from_a_number_or_a_text(
    fields: &Json,
    key: &str,
    r: Option<i64>,
    v: JsonModel,
)
    requires
        call_ensures(read_i64, (fields, key), r),
        member(fields@, key@) == Some(v),
    ensures
        v is Number && v->Number_0 is Unsigned && v->Number_0->Unsigned_0 <= i64::MAX ==> r is Some
            && r->0 == v->Number_0->Unsigned_0,
        v is Number && v->Number_0 is Unsigned && v->Number_0->Unsigned_0 > i64::MAX ==> r == Some(
            i64::MAX,
        ),
        v is Number && v->Number_0 is Negative ==> r == Some(v->Number_0->Negative_0),
        v is Text ==> (r is Some <==> parse_signed(v->Text_0) is Some) && (r is Some ==> r->0
            == parse_signed(v->Text_0)->0),
        v is Bool || v is Null || v is Array || v is Object ==> r is None,
{
}

/// A write is limited only where it has an owner and a class.
pub proof fn only_an_owned_write_is_limited(owner: &str, class: &str, r: bool)
    requires
        call_ensures(is_rate_limited, (owner, class), r),
    ensures
        r <==> trimmed(owner@).len() > 0 && trimmed(class@).len() > 0,
{
}

} // verus!
