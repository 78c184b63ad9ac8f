//! Guards: deterministic admission predicates that answer every refusal with
//! a typed receipt (what was violated, by which guard, under which policy
//! epoch, on which input).
pub mod dsl;
use vstd::prelude::*;
use crate::hashing::{fnv, hex_of, simple_hash, to_hex};
use crate::json::{JsonValue, json_text, kind_name, member, to_json_string};
use crate::strmap::{StrMap, lemma_dom_len};
use crate::text::{dec_of, decimal, owned, push_decimal, push_str, str_eq, strings_view, clone_strings};
use vstd::utf8::encode_utf8;
use vstd::string::StringSliceAdditionalSpecFns;

verus! {

/// The category of an inadmissible input.
#[derive(Debug, Clone, Copy, PartialEq, Eq, Structural, Hash)]
pub enum RefusalCode {
    TypeMismatch,
    MissingRequiredField,
    InvalidEnumVariant,
    ValueOutOfRange,
    InvalidStringLength,
    PatternMismatch,
    InvalidFormat,
    InvalidStateTransition,
    PreconditionViolation,
    PostconditionViolation,
    ResourceNotFound,
    ResourceAlreadyExists,
    CircularDependency,
    DeadlockDetected,
    RateLimitExceeded,
    QuotaExhausted,
    PermissionDenied,
    AuthenticationRequired,
    VerificationFailed,
    ProtocolVersionMismatch,
    UnsupportedCapability,
    TemporalViolation,
    CardinalityViolation,
    SchemaValidationFailed,
    InputSanitizationRequired,
    DomainConstraintViolation,
}

/// The wire name of a refusal code.
pub open spec fn code_name(c: RefusalCode) -> Seq<char> {
    match c {
        RefusalCode::TypeMismatch => "TYPE_MISMATCH"@,
        RefusalCode::MissingRequiredField => "MISSING_REQUIRED_FIELD"@,
        RefusalCode::InvalidEnumVariant => "INVALID_ENUM_VARIANT"@,
        RefusalCode::ValueOutOfRange => "VALUE_OUT_OF_RANGE"@,
        RefusalCode::InvalidStringLength => "INVALID_STRING_LENGTH"@,
        RefusalCode::PatternMismatch => "PATTERN_MISMATCH"@,
        RefusalCode::InvalidFormat => "INVALID_FORMAT"@,
        RefusalCode::InvalidStateTransition => "INVALID_STATE_TRANSITION"@,
        RefusalCode::PreconditionViolation => "PRECONDITION_VIOLATION"@,
        RefusalCode::PostconditionViolation => "POSTCONDITION_VIOLATION"@,
        RefusalCode::ResourceNotFound => "RESOURCE_NOT_FOUND"@,
        RefusalCode::ResourceAlreadyExists => "RESOURCE_ALREADY_EXISTS"@,
        RefusalCode::CircularDependency => "CIRCULAR_DEPENDENCY"@,
        RefusalCode::DeadlockDetected => "DEADLOCK_DETECTED"@,
        RefusalCode::RateLimitExceeded => "RATE_LIMIT_EXCEEDED"@,
        RefusalCode::QuotaExhausted => "QUOTA_EXHAUSTED"@,
        RefusalCode::PermissionDenied => "PERMISSION_DENIED"@,
        RefusalCode::AuthenticationRequired => "AUTHENTICATION_REQUIRED"@,
        RefusalCode::VerificationFailed => "VERIFICATION_FAILED"@,
        RefusalCode::ProtocolVersionMismatch => "PROTOCOL_VERSION_MISMATCH"@,
        RefusalCode::UnsupportedCapability => "UNSUPPORTED_CAPABILITY"@,
        RefusalCode::TemporalViolation => "TEMPORAL_VIOLATION"@,
        RefusalCode::CardinalityViolation => "CARDINALITY_VIOLATION"@,
        RefusalCode::SchemaValidationFailed => "SCHEMA_VALIDATION_FAILED"@,
        RefusalCode::InputSanitizationRequired => "INPUT_SANITIZATION_REQUIRED"@,
        RefusalCode::DomainConstraintViolation => "DOMAIN_CONSTRAINT_VIOLATION"@,
    }
}

impl RefusalCode {
    /// The wire name of this code (as it is displayed and serialized).
    pub fn as_str(&self) -> (r: &'static str)
        ensures
            r@ == code_name(*self),
    {
        match self {
            RefusalCode::TypeMismatch => "TYPE_MISMATCH",
            RefusalCode::MissingRequiredField => "MISSING_REQUIRED_FIELD",
            RefusalCode::InvalidEnumVariant => "INVALID_ENUM_VARIANT",
            RefusalCode::ValueOutOfRange => "VALUE_OUT_OF_RANGE",
            RefusalCode::InvalidStringLength => "INVALID_STRING_LENGTH",
            RefusalCode::PatternMismatch => "PATTERN_MISMATCH",
            RefusalCode::InvalidFormat => "INVALID_FORMAT",
            RefusalCode::InvalidStateTransition => "INVALID_STATE_TRANSITION",
            RefusalCode::PreconditionViolation => "PRECONDITION_VIOLATION",
            RefusalCode::PostconditionViolation => "POSTCONDITION_VIOLATION",
            RefusalCode::ResourceNotFound => "RESOURCE_NOT_FOUND",
            RefusalCode::ResourceAlreadyExists => "RESOURCE_ALREADY_EXISTS",
            RefusalCode::CircularDependency => "CIRCULAR_DEPENDENCY",
            RefusalCode::DeadlockDetected => "DEADLOCK_DETECTED",
            RefusalCode::RateLimitExceeded => "RATE_LIMIT_EXCEEDED",
            RefusalCode::QuotaExhausted => "QUOTA_EXHAUSTED",
            RefusalCode::PermissionDenied => "PERMISSION_DENIED",
            RefusalCode::AuthenticationRequired => "AUTHENTICATION_REQUIRED",
            RefusalCode::VerificationFailed => "VERIFICATION_FAILED",
            RefusalCode::ProtocolVersionMismatch => "PROTOCOL_VERSION_MISMATCH",
            RefusalCode::UnsupportedCapability => "UNSUPPORTED_CAPABILITY",
            RefusalCode::TemporalViolation => "TEMPORAL_VIOLATION",
            RefusalCode::CardinalityViolation => "CARDINALITY_VIOLATION",
            RefusalCode::SchemaValidationFailed => "SCHEMA_VALIDATION_FAILED",
            RefusalCode::InputSanitizationRequired => "INPUT_SANITIZATION_REQUIRED",
            RefusalCode::DomainConstraintViolation => "DOMAIN_CONSTRAINT_VIOLATION",
        }
    }
}

/// The audit record of a refusal.
#[derive(Debug)]
pub struct RefusalReceipt {
    /// What kind of violation.
    pub code: RefusalCode,
    /// The guard that refused.
    pub violated_guard: String,
    /// The hash of the refused input.
    pub input_hash: String,
    /// The policy epoch the refusal was made under.
    pub policy_epoch: u64,
    /// Why, for people.
    pub reason: String,
    /// Details of the violation, by name, in the order they were added.
    pub metadata: Option<Vec<(String, JsonValue)>>,
}

impl RefusalReceipt {
    /// A receipt without metadata.
    pub fn new(code: RefusalCode, violated_guard: String, input_hash: String, policy_epoch: u64, reason: String) -> (r: Self)
        ensures
            r.code == code,
            r.violated_guard@ == violated_guard@,
            r.input_hash@ == input_hash@,
            r.policy_epoch == policy_epoch,
            r.reason@ == reason@,
            r.metadata is None,
    {
        RefusalReceipt { code, violated_guard, input_hash, policy_epoch, reason, metadata: None }
    }

    /// A receipt with metadata.
    pub fn with_metadata(
        code: RefusalCode,
        violated_guard: String,
        input_hash: String,
        policy_epoch: u64,
        reason: String,
        metadata: Vec<(String, JsonValue)>,
    ) -> (r: Self)
        ensures
            r.code == code,
            r.violated_guard@ == violated_guard@,
            r.input_hash@ == input_hash@,
            r.policy_epoch == policy_epoch,
            r.reason@ == reason@,
            r.metadata == Some(metadata),
    {
        RefusalReceipt { code, violated_guard, input_hash, policy_epoch, reason, metadata: Some(metadata) }
    }

    /// Sets one metadata entry, replacing an earlier entry of the same key.
    pub fn add_metadata(self, key: String, value: JsonValue) -> (r: Self)
        ensures
            r.code == self.code,
            r.violated_guard == self.violated_guard,
            r.input_hash == self.input_hash,
            r.policy_epoch == self.policy_epoch,
            r.reason == self.reason,
            r.metadata is Some,
            ({
                let before = match self.metadata { Some(m) => m@, None => Seq::empty() };
                let after = r.metadata->0@;
                match key_position(before, key@) {
                    Some(i) => after == before.update(i, (after[i].0, value)) && after[i].0@ == key@,
                    None => after.len() == before.len() + 1 && after.take(before.len() as int) == before
                        && after.last().0@ == key@ && after.last().1 == value,
                }
            }),
    {
        let ghost orig = self;
        let RefusalReceipt { code, violated_guard, input_hash, policy_epoch, reason, metadata } = self;
        let mut m = match metadata {
            Some(m) => m,
            None => Vec::new(),
        };
        let ghost before = m@;
        let mut i: usize = 0;
        while i < m.len()
            invariant
                i <= m@.len(),
                m@ == before,
                forall|j: int| 0 <= j < i ==> m@[j].0@ != key@,
                key_position(before, key@) == key_position_from(before, key@, i as int),
                orig == self,
                code == orig.code,
                violated_guard == orig.violated_guard,
                input_hash == orig.input_hash,
                policy_epoch == orig.policy_epoch,
                reason == orig.reason,
                before == (match orig.metadata { Some(mm) => mm@, None => Seq::empty() }),
            decreases m@.len() - i,
        {
            if str_eq(m[i].0.as_str(), key.as_str()) {
                let (k, _) = m.remove(i);
                m.insert(i, (k, value));
                assert(m@ =~= before.update(i as int, (m@[i as int].0, value)));
                return RefusalReceipt { code, violated_guard, input_hash, policy_epoch, reason, metadata: Some(m) };
            }
            i = i + 1;
        }
        m.push((key, value));
        assert(m@.take(before.len() as int) =~= before);
        RefusalReceipt { code, violated_guard, input_hash, policy_epoch, reason, metadata: Some(m) }
    }

    /// The receipt as it is displayed: `[CODE] reason (guard: g, epoch: n, input: h)`.
    pub fn to_display_string(&self) -> (r: String)
        ensures
            r@ == seq!['['] + code_name(self.code) + "] "@ + self.reason@ + " (guard: "@ + self.violated_guard@
                + ", epoch: "@ + dec_of(self.policy_epoch as nat) + ", input: "@ + self.input_hash@ + seq![')'],
    {
        let mut s = owned("[");
        push_str(&mut s, self.code.as_str());
        push_str(&mut s, "] ");
        push_str(&mut s, self.reason.as_str());
        push_str(&mut s, " (guard: ");
        push_str(&mut s, self.violated_guard.as_str());
        push_str(&mut s, ", epoch: ");
        push_decimal(self.policy_epoch, &mut s);
        push_str(&mut s, ", input: ");
        push_str(&mut s, self.input_hash.as_str());
        push_str(&mut s, ")");
        proof {
            reveal_strlit("[");
            reveal_strlit(")");
        }
        assert(s@ =~= seq!['['] + code_name(self.code) + "] "@ + self.reason@ + " (guard: "@ + self.violated_guard@
            + ", epoch: "@ + dec_of(self.policy_epoch as nat) + ", input: "@ + self.input_hash@ + seq![')']);
        s
    }
}

/// The position of the first entry with `key` at or after `i`.
pub open spec fn key_position_from(m: Seq<(String, JsonValue)>, key: Seq<char>, i: int) -> Option<int>
    decreases m.len() - i,
{
    if i < 0 || i >= m.len() {
        None
    } else if m[i].0@ == key {
        Some(i)
    } else {
        key_position_from(m, key, i + 1)
    }
}

/// The position of the first entry with `key`.
pub open spec fn key_position(m: Seq<(String, JsonValue)>, key: Seq<char>) -> Option<int> {
    key_position_from(m, key, 0)
}

/// The hash text that receipts carry for `v`: `hash-` and the hexadecimal
/// FNV-1a hash of the UTF-8 bytes of its compact JSON text.
pub open spec fn input_hash_text(v: JsonValue) -> Seq<char> {
    "hash-"@ + hex_of(fnv(encode_utf8(json_text(v))) as nat)
}

/// The hash text of an input, for audit trails.
pub fn compute_input_hash(input: &JsonValue) -> (r: String)
    ensures
        r@ == input_hash_text(*input),
{
    let text = to_json_string(input);
    let h = simple_hash(text.as_str());
    let mut r = owned("hash-");
    push_str(&mut r, to_hex(h).as_str());
    r
}

/// A string value.
pub fn json_str(s: &str) -> (r: JsonValue)
    ensures
        r matches JsonValue::String(t) && t@ == s@,
{
    JsonValue::String(owned(s))
}

/// A non-negative integer value.
pub fn json_count(n: usize) -> (r: JsonValue)
    ensures
        r matches JsonValue::Number(t) && t@ == dec_of(n as nat),
{
    JsonValue::Number(decimal(n as u64))
}

/// A metadata entry `key` holds the string `val` at position `i`.
pub open spec fn meta_str(m: Seq<(String, JsonValue)>, i: int, key: Seq<char>, val: Seq<char>) -> bool {
    &&& 0 <= i < m.len()
    &&& m[i].0@ == key
    &&& m[i].1 matches JsonValue::String(s) && s@ == val
}

/// A metadata entry `key` holds the decimal number `n` at position `i`.
pub open spec fn meta_count(m: Seq<(String, JsonValue)>, i: int, key: Seq<char>, n: nat) -> bool {
    &&& 0 <= i < m.len()
    &&& m[i].0@ == key
    &&& m[i].1 matches JsonValue::Number(s) && s@ == dec_of(n)
}

/// A predicate that admits an input or refuses it with a receipt.
///
/// `admits` states which inputs `check` lets through.
pub trait Guard {
    /// `true` iff `check` admits `input`.
    spec fn admits(&self, input: JsonValue, context: Seq<char>, policy_epoch: u64) -> bool;

    /// Admits the input, or refuses it with a receipt made under `policy_epoch`.
    fn check(&self, input: &JsonValue, context: &str, policy_epoch: u64) -> (r: Result<(), RefusalReceipt>)
        ensures
            (r is Ok) == self.admits(*input, context@, policy_epoch),
            r matches Err(e) ==> e.policy_epoch == policy_epoch,
    ;

    /// The guard's name, for audit trails.
    fn name(&self) -> &str;

    /// What the guard requires.
    fn description(&self) -> String;
}

/// Admits values of one JSON type.
#[derive(Debug)]
pub struct TypeGuard {
    expected_type: String,
}

impl TypeGuard {
    /// A guard for the JSON type named `expected_type` (`null`, `boolean`,
    /// `number`, `string`, `array` or `object`).
    pub fn new(expected_type: String) -> (r: Self)
        ensures
            r.expected()@ == expected_type@,
    {
        TypeGuard { expected_type }
    }

    /// The expected type name.
    pub closed spec fn expected(&self) -> String {
        self.expected_type
    }
}

impl Guard for TypeGuard {
    open spec fn admits(&self, input: JsonValue, context: Seq<char>, policy_epoch: u64) -> bool {
        kind_name(input) == self.expected()@
    }

    fn check(&self, input: &JsonValue, context: &str, policy_epoch: u64) -> (r: Result<(), RefusalReceipt>)
        ensures
            r matches Err(e) ==> {
                &&& e.code == RefusalCode::TypeMismatch
                &&& e.violated_guard@ == "TypeGuard("@ + self.expected()@ + ")"@
                &&& e.input_hash@ == input_hash_text(*input)
                &&& e.reason@ == "Expected type '"@ + self.expected()@ + "', got '"@ + kind_name(*input) + "'"@
                &&& e.metadata matches Some(m) && m@.len() == 3
                    && meta_str(m@, 0, "expected"@, self.expected()@)
                    && meta_str(m@, 1, "actual"@, kind_name(*input))
                    && meta_str(m@, 2, "context"@, context@)
            },
    {
        let actual = input.kind();
        if str_eq(actual, self.expected_type.as_str()) {
            return Ok(());
        }
        let mut metadata: Vec<(String, JsonValue)> = Vec::new();
        metadata.push((owned("expected"), json_str(self.expected_type.as_str())));
        metadata.push((owned("actual"), json_str(actual)));
        metadata.push((owned("context"), json_str(context)));
        let mut guard_name = owned("TypeGuard(");
        push_str(&mut guard_name, self.expected_type.as_str());
        push_str(&mut guard_name, ")");
        let mut reason = owned("Expected type '");
        push_str(&mut reason, self.expected_type.as_str());
        push_str(&mut reason, "', got '");
        push_str(&mut reason, actual);
        push_str(&mut reason, "'");
        Err(RefusalReceipt::with_metadata(
            RefusalCode::TypeMismatch,
            guard_name,
            compute_input_hash(input),
            policy_epoch,
            reason,
            metadata,
        ))
    }

    fn name(&self) -> (r: &str)
        ensures
            r@ == "TypeGuard"@,
    {
        "TypeGuard"
    }

    fn description(&self) -> (r: String)
        ensures
            r@ == "Type must be: "@ + self.expected()@,
    {
        let mut s = owned("Type must be: ");
        push_str(&mut s, self.expected_type.as_str());
        s
    }
}

/// Admits objects that have a given member.
#[derive(Debug)]
pub struct RequiredFieldGuard {
    field_name: String,
}

impl RequiredFieldGuard {
    /// A guard requiring the member `field_name`.
    pub fn new(field_name: String) -> (r: Self)
        ensures
            r.field()@ == field_name@,
    {
        RequiredFieldGuard { field_name }
    }

    /// The required member's name.
    pub closed spec fn field(&self) -> String {
        self.field_name
    }
}

impl Guard for RequiredFieldGuard {
    open spec fn admits(&self, input: JsonValue, context: Seq<char>, policy_epoch: u64) -> bool {
        member(input, self.field()@) is Some
    }

    fn check(&self, input: &JsonValue, context: &str, policy_epoch: u64) -> (r: Result<(), RefusalReceipt>)
        ensures
            r matches Err(e) ==> {
                &&& e.code == RefusalCode::MissingRequiredField
                &&& e.violated_guard@ == "RequiredFieldGuard("@ + self.field()@ + ")"@
                &&& e.input_hash@ == input_hash_text(*input)
                &&& e.reason@ == "Required field '"@ + self.field()@ + "' is missing"@
                &&& e.metadata matches Some(m) && m@.len() == 2
                    && meta_str(m@, 0, "field"@, self.field()@)
                    && meta_str(m@, 1, "context"@, context@)
            },
    {
        if input.get(self.field_name.as_str()).is_some() {
            return Ok(());
        }
        let mut metadata: Vec<(String, JsonValue)> = Vec::new();
        metadata.push((owned("field"), json_str(self.field_name.as_str())));
        metadata.push((owned("context"), json_str(context)));
        let mut guard_name = owned("RequiredFieldGuard(");
        push_str(&mut guard_name, self.field_name.as_str());
        push_str(&mut guard_name, ")");
        let mut reason = owned("Required field '");
        push_str(&mut reason, self.field_name.as_str());
        push_str(&mut reason, "' is missing");
        Err(RefusalReceipt::with_metadata(
            RefusalCode::MissingRequiredField,
            guard_name,
            compute_input_hash(input),
            policy_epoch,
            reason,
            metadata,
        ))
    }

    fn name(&self) -> (r: &str)
        ensures
            r@ == "RequiredFieldGuard"@,
    {
        "RequiredFieldGuard"
    }

    fn description(&self) -> (r: String)
        ensures
            r@ == "Field '"@ + self.field()@ + "' must be present"@,
    {
        let mut s = owned("Field '");
        push_str(&mut s, self.field_name.as_str());
        push_str(&mut s, "' must be present");
        s
    }
}

/// Admits strings whose UTF-8 length is within bounds.
#[derive(Debug)]
pub struct StringLengthGuard {
    min_length: Option<usize>,
    max_length: Option<usize>,
}

/// The UTF-8 length of a string, as `str::len` gives it.
pub open spec fn utf8_len(s: Seq<char>) -> nat {
    (encode_utf8(s).len() as usize) as nat
}

impl StringLengthGuard {
    /// A guard with optional bounds on the length in bytes.
    pub fn new(min_length: Option<usize>, max_length: Option<usize>) -> (r: Self)
        ensures
            r.min() == min_length,
            r.max() == max_length,
    {
        StringLengthGuard { min_length, max_length }
    }

    /// The smallest length admitted.
    pub closed spec fn min(&self) -> Option<usize> {
        self.min_length
    }

    /// The largest length admitted.
    pub closed spec fn max(&self) -> Option<usize> {
        self.max_length
    }
}

impl Guard for StringLengthGuard {
    open spec fn admits(&self, input: JsonValue, context: Seq<char>, policy_epoch: u64) -> bool {
        &&& input matches JsonValue::String(s)
        &&& (self.min() matches Some(lo) ==> utf8_len(input->String_0@) >= lo)
        &&& (self.max() matches Some(hi) ==> utf8_len(input->String_0@) <= hi)
    }

    fn check(&self, input: &JsonValue, context: &str, policy_epoch: u64) -> (r: Result<(), RefusalReceipt>)
        ensures
            r matches Err(e) ==> e.violated_guard@ == "StringLengthGuard"@ && e.input_hash@ == input_hash_text(*input),
            r matches Err(e) ==> (!(input matches JsonValue::String(_)) <==> e.code == RefusalCode::TypeMismatch),
            r matches Err(e) ==> (!(input matches JsonValue::String(_)) ==> e.reason@ == "Value is not a string"@ && e.metadata is None),
            r matches Err(e) ==> (input matches JsonValue::String(s) ==> {
                let n = utf8_len(s@);
                &&& e.code == RefusalCode::InvalidStringLength
                &&& if (self.min() is Some && n < self.min()->0) {
                    let lo = self.min()->0;
                    &&& e.reason@ == "String length "@ + dec_of(n) + " is less than minimum "@ + dec_of(lo as nat)
                    &&& e.metadata matches Some(m) && m@.len() == 3 && meta_count(m@, 0, "minLength"@, lo as nat)
                        && meta_count(m@, 1, "actualLength"@, n) && meta_str(m@, 2, "context"@, context@)
                } else {
                    let hi = self.max()->0;
                    &&& self.max() is Some
                    &&& e.reason@ == "String length "@ + dec_of(n) + " is greater than maximum "@ + dec_of(hi as nat)
                    &&& e.metadata matches Some(m) && m@.len() == 3 && meta_count(m@, 0, "maxLength"@, hi as nat)
                        && meta_count(m@, 1, "actualLength"@, n) && meta_str(m@, 2, "context"@, context@)
                }
            }),
    {
        let value = match input.as_str() {
            Some(s) => s,
            None => {
                return Err(RefusalReceipt::new(
                    RefusalCode::TypeMismatch,
                    owned("StringLengthGuard"),
                    compute_input_hash(input),
                    policy_epoch,
                    owned("Value is not a string"),
                ));
            },
        };
        let length = value.len();
        assert(length == value.spec_bytes().len() as usize);
        assert(length == utf8_len(value@));
        assert(value@ == input->String_0@);
        if let Some(min) = self.min_length {
            if length < min {
                let mut metadata: Vec<(String, JsonValue)> = Vec::new();
                metadata.push((owned("minLength"), json_count(min)));
                metadata.push((owned("actualLength"), json_count(length)));
                metadata.push((owned("context"), json_str(context)));
                let mut reason = owned("String length ");
                push_decimal(length as u64, &mut reason);
                push_str(&mut reason, " is less than minimum ");
                push_decimal(min as u64, &mut reason);
                return Err(RefusalReceipt::with_metadata(
                    RefusalCode::InvalidStringLength,
                    owned("StringLengthGuard"),
                    compute_input_hash(input),
                    policy_epoch,
                    reason,
                    metadata,
                ));
            }
        }
        if let Some(max) = self.max_length {
            if length > max {
                let mut metadata: Vec<(String, JsonValue)> = Vec::new();
                metadata.push((owned("maxLength"), json_count(max)));
                metadata.push((owned("actualLength"), json_count(length)));
                metadata.push((owned("context"), json_str(context)));
                let mut reason = owned("String length ");
                push_decimal(length as u64, &mut reason);
                push_str(&mut reason, " is greater than maximum ");
                push_decimal(max as u64, &mut reason);
                return Err(RefusalReceipt::with_metadata(
                    RefusalCode::InvalidStringLength,
                    owned("StringLengthGuard"),
                    compute_input_hash(input),
                    policy_epoch,
                    reason,
                    metadata,
                ));
            }
        }
        Ok(())
    }

    fn name(&self) -> (r: &str)
        ensures
            r@ == "StringLengthGuard"@,
    {
        "StringLengthGuard"
    }

    fn description(&self) -> (r: String)
        ensures
            r@ == match (self.min(), self.max()) {
                (Some(lo), Some(hi)) => "String length must be in range ["@ + dec_of(lo as nat) + ", "@ + dec_of(hi as nat) + "]"@,
                (Some(lo), None) => "String length must be >= "@ + dec_of(lo as nat),
                (None, Some(hi)) => "String length must be <= "@ + dec_of(hi as nat),
                (None, None) => "No length constraints"@,
            },
    {
        match (self.min_length, self.max_length) {
            (Some(min), Some(max)) => {
                let mut s = owned("String length must be in range [");
                push_decimal(min as u64, &mut s);
                push_str(&mut s, ", ");
                push_decimal(max as u64, &mut s);
                push_str(&mut s, "]");
                s
            },
            (Some(min), None) => {
                let mut s = owned("String length must be >= ");
                push_decimal(min as u64, &mut s);
                s
            },
            (None, Some(max)) => {
                let mut s = owned("String length must be <= ");
                push_decimal(max as u64, &mut s);
                s
            },
            (None, None) => owned("No length constraints"),
        }
    }
}

/// What `{:?}` prints for a list of strings.
pub uninterp spec fn debug_of_strings(v: Seq<Seq<char>>) -> Seq<char>;

/// The `{:?}` rendering of a list of strings (std's `Debug` for `Vec<String>`).
#[verifier::external_body]
pub(crate) fn debug_strings(v: &Vec<String>) -> (r: String)
    ensures
        r@ == debug_of_strings(strings_view(v@)),
{
    format!("{:?}", v)
}

/// The total length of `s`, stopping at `usize::MAX`.
pub open spec fn capped_total(s: Seq<Vec<String>>) -> nat
    decreases s.len(),
{
    if s.len() == 0 {
        0
    } else {
        let t = capped_total(s.drop_last()) + s.last()@.len();
        if t > usize::MAX { usize::MAX as nat } else { t }
    }
}

/// Admits the transitions `{"from": a, "to": b}` that a table allows.
#[derive(Debug)]
pub struct StateTransitionGuard {
    valid_transitions: StrMap<Vec<String>>,
}

/// The string member `key` of `v`, if it is a string.
pub open spec fn str_member(v: JsonValue, key: Seq<char>) -> Option<Seq<char>> {
    match member(v, key) {
        Some(JsonValue::String(s)) => Some(s@),
        _ => None,
    }
}

impl StateTransitionGuard {
    /// A guard allowing, from each state, the listed next states.
    pub fn new(valid_transitions: StrMap<Vec<String>>) -> (r: Self)
        requires
            valid_transitions.wf(),
        ensures
            r.table() == valid_transitions.map(),
            r.wf(),
    {
        StateTransitionGuard { valid_transitions }
    }

    /// Allowed next states by state.
    pub closed spec fn table(&self) -> Map<Seq<char>, Vec<String>> {
        self.valid_transitions.map()
    }

    /// The table is well formed.
    pub closed spec fn wf(&self) -> bool {
        self.valid_transitions.wf()
    }

    #[verifier::type_invariant]
    spec fn table_sorted(&self) -> bool {
        self.valid_transitions.wf()
    }

    /// The lists of next states, in state order.
    pub closed spec fn lists(&self) -> Seq<Vec<String>> {
        self.valid_transitions.vals()
    }

    /// `true` iff the table lists `to` among the next states of `from`.
    pub open spec fn allows(&self, from: Seq<char>, to: Seq<char>) -> bool {
        &&& self.table().contains_key(from)
        &&& strings_view(self.table()[from]@).contains(to)
    }
}

impl Guard for StateTransitionGuard {
    open spec fn admits(&self, input: JsonValue, context: Seq<char>, policy_epoch: u64) -> bool {
        &&& input matches JsonValue::Object(_)
        &&& str_member(input, "from"@) matches Some(f)
        &&& str_member(input, "to"@) matches Some(t)
        &&& self.allows(f, t)
    }

    fn check(&self, input: &JsonValue, context: &str, policy_epoch: u64) -> (r: Result<(), RefusalReceipt>)
        ensures
            r matches Err(e) ==> e.violated_guard@ == "StateTransitionGuard"@ && e.input_hash@ == input_hash_text(*input),
            r matches Err(e) ==> (!(input matches JsonValue::Object(_)) ==> e.code == RefusalCode::TypeMismatch
                && e.reason@ == "Input must be an object with 'from' and 'to' fields"@),
            r matches Err(e) ==> ((input matches JsonValue::Object(_)) && str_member(*input, "from"@) is None ==>
                e.code == RefusalCode::MissingRequiredField && e.reason@ == "Missing 'from' state field"@),
            r matches Err(e) ==> ((input matches JsonValue::Object(_)) && str_member(*input, "from"@) is Some
                && str_member(*input, "to"@) is None ==>
                e.code == RefusalCode::MissingRequiredField && e.reason@ == "Missing 'to' state field"@),
            r matches Err(e) ==> ((input matches JsonValue::Object(_)) && str_member(*input, "from"@) is Some
                && str_member(*input, "to"@) is Some ==> {
                let f = str_member(*input, "from"@)->0;
                let t = str_member(*input, "to"@)->0;
                &&& e.code == RefusalCode::InvalidStateTransition
                &&& self.table().contains_key(f) ==> e.reason@ == "Invalid transition from '"@ + f + "' to '"@ + t
                    + "'. Allowed: "@ + debug_of_strings(strings_view(self.table()[f]@))
                &&& !self.table().contains_key(f) ==> e.reason@ == "Unknown state '"@ + f + "'"@
            }),
    {
        if !(input matches JsonValue::Object(_)) {
            return Err(RefusalReceipt::new(
                RefusalCode::TypeMismatch,
                owned("StateTransitionGuard"),
                compute_input_hash(input),
                policy_epoch,
                owned("Input must be an object with 'from' and 'to' fields"),
            ));
        }
        let from_state = match input.get("from") {
            Some(v) => v.as_str(),
            None => None,
        };
        let from_state = match from_state {
            Some(f) => f,
            None => {
                return Err(RefusalReceipt::new(
                    RefusalCode::MissingRequiredField,
                    owned("StateTransitionGuard"),
                    compute_input_hash(input),
                    policy_epoch,
                    owned("Missing 'from' state field"),
                ));
            },
        };
        let to_state = match input.get("to") {
            Some(v) => v.as_str(),
            None => None,
        };
        let to_state = match to_state {
            Some(t) => t,
            None => {
                return Err(RefusalReceipt::new(
                    RefusalCode::MissingRequiredField,
                    owned("StateTransitionGuard"),
                    compute_input_hash(input),
                    policy_epoch,
                    owned("Missing 'to' state field"),
                ));
            },
        };
        proof {
            use_type_invariant(self);
        }
        match self.valid_transitions.get(from_state) {
            Some(allowed) => {
                assert(str_member(*input, "from"@) == Some(from_state@));
                assert(str_member(*input, "to"@) == Some(to_state@));
                let mut i: usize = 0;
                while i < allowed.len()
                    invariant
                        i <= allowed@.len(),
                        forall|j: int| 0 <= j < i ==> allowed@[j]@ != to_state@,
                        self.table().contains_key(from_state@),
                        *allowed == self.table()[from_state@],
                        str_member(*input, "from"@) == Some(from_state@),
                        str_member(*input, "to"@) == Some(to_state@),
                        input matches JsonValue::Object(_),
                    decreases allowed@.len() - i,
                {
                    if str_eq(allowed[i].as_str(), to_state) {
                        assert(strings_view(allowed@)[i as int] == to_state@);
                        return Ok(());
                    }
                    i = i + 1;
                }
                assert(!strings_view(allowed@).contains(to_state@)) by {
                    if strings_view(allowed@).contains(to_state@) {
                        let j = choose|j: int| 0 <= j < strings_view(allowed@).len() && strings_view(allowed@)[j] == to_state@;
                        assert(allowed@[j]@ == to_state@);
                    }
                }
                let mut list: Vec<JsonValue> = Vec::new();
                let mut k: usize = 0;
                while k < allowed.len()
                    invariant
                        k <= allowed@.len(),
                        list@.len() == k,
                    decreases allowed@.len() - k,
                {
                    list.push(json_str(allowed[k].as_str()));
                    k = k + 1;
                }
                let mut metadata: Vec<(String, JsonValue)> = Vec::new();
                metadata.push((owned("from"), json_str(from_state)));
                metadata.push((owned("to"), json_str(to_state)));
                metadata.push((owned("allowed"), JsonValue::Array(list)));
                metadata.push((owned("context"), json_str(context)));
                let mut reason = owned("Invalid transition from '");
                push_str(&mut reason, from_state);
                push_str(&mut reason, "' to '");
                push_str(&mut reason, to_state);
                push_str(&mut reason, "'. Allowed: ");
                push_str(&mut reason, debug_strings(allowed).as_str());
                Err(RefusalReceipt::with_metadata(
                    RefusalCode::InvalidStateTransition,
                    owned("StateTransitionGuard"),
                    compute_input_hash(input),
                    policy_epoch,
                    reason,
                    metadata,
                ))
            },
            None => {
                let mut metadata: Vec<(String, JsonValue)> = Vec::new();
                metadata.push((owned("from"), json_str(from_state)));
                metadata.push((owned("context"), json_str(context)));
                let mut reason = owned("Unknown state '");
                push_str(&mut reason, from_state);
                push_str(&mut reason, "'");
                Err(RefusalReceipt::with_metadata(
                    RefusalCode::InvalidStateTransition,
                    owned("StateTransitionGuard"),
                    compute_input_hash(input),
                    policy_epoch,
                    reason,
                    metadata,
                ))
            },
        }
    }

    fn name(&self) -> (r: &str)
        ensures
            r@ == "StateTransitionGuard"@,
    {
        "StateTransitionGuard"
    }

    fn description(&self) -> (r: String)
        ensures
            r@ == "State machine with "@ + dec_of(self.table().dom().len())
                + " states and "@ + dec_of(capped_total(self.lists())) + " transitions"@,
    {
        proof {
            use_type_invariant(self);
        }
        let lists = self.valid_transitions.values();
        let ghost s = self.lists();
        let mut total: usize = 0;
        let mut i: usize = 0;
        while i < lists.len()
            invariant
                lists@.len() == s.len(),
                forall|j: int| 0 <= j < lists@.len() ==> *lists@[j] == s[j],
                i <= lists@.len(),
                total == capped_total(s.take(i as int)),
            decreases lists@.len() - i,
        {
            assert(s.take(i + 1).drop_last() =~= s.take(i as int));
            total = total.saturating_add(lists[i].len());
            i = i + 1;
        }
        assert(s.take(i as int) =~= s);
        let mut out = owned("State machine with ");
        push_decimal(self.valid_transitions.len() as u64, &mut out);
        push_str(&mut out, " states and ");
        push_decimal(total as u64, &mut out);
        push_str(&mut out, " transitions");
        proof {
            lemma_dom_len(&self.valid_transitions);
        }
        out
    }
}

} // verus!
