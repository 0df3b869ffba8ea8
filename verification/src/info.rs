//! The `ErrorInfo` value type and its JSON renderings.
//!
//! An `ErrorInfo` carries a classification tag, a human-readable message,
//! additional details, a numeric status code and, in one variant, an RFC 3339
//! timestamp. It renders as a JSON object with the single top-level key
//! `error` wrapping those fields, either compactly ([`ErrorInfo::to_json`])
//! or pretty-printed with two-space indentation
//! ([`ErrorInfo::to_json_pretty`]).

use crate::clock;
use crate::json;
use crate::json::digits_of;
use crate::json::is_digit;
use crate::json::quoted;
use crate::json::JsonAtom;
use crate::json::lemma_cancel_prefix;
use crate::json::lemma_digits_prefix;
use crate::json::lemma_members_compact_unfold;
use crate::json::lemma_members_pretty_unfold;
use crate::json::lemma_quoted_prefix;
use crate::json::member_compact;
use crate::json::member_pretty;
use crate::json::members_compact;
use crate::json::members_pretty;
use crate::json::wrapped_compact;
use crate::json::wrapped_pretty;
use vstd::prelude::*;

verus! {

/// The mathematical value of an [`ErrorInfo`]: its fields as character
/// sequences and plain integers.
pub struct ErrorInfoView {
    pub error_type: Seq<char>,
    pub message: Seq<char>,
    pub details: Seq<char>,
    pub status: u16,
    pub timestamp: Option<Seq<char>>,
}

/// A structured description of an error: a short classification tag, a
/// message, details, an HTTP-style status code and, in the timestamped
/// variant, an RFC 3339 creation time. All fields are set at construction and
/// never change.
pub struct ErrorInfo {
    pub error_type: String,
    pub message: String,
    pub details: String,
    pub status: u16,
    pub timestamp: Option<String>,
}

impl View for ErrorInfo {
    type V = ErrorInfoView;

    open spec fn view(&self) -> ErrorInfoView {
        ErrorInfoView {
            error_type: self.error_type@,
            message: self.message@,
            details: self.details@,
            status: self.status,
            timestamp: if self.timestamp is Some {
                Some(self.timestamp->0@)
            } else {
                None
            },
        }
    }
}

/// The compact JSON serialization of `v`: one top-level key `error` wrapping
/// the fields `type`, `message`, `details`, `status` and, when present,
/// `timestamp`, in that key order, with no whitespace.
pub open spec fn json_of(v: ErrorInfoView) -> Seq<char> {
    "{\"error\":{\"type\":"@ + quoted(v.error_type) + ",\"message\":"@ + quoted(v.message)
        + ",\"details\":"@ + quoted(v.details) + ",\"status\":"@ + digits_of(v.status as nat) + (
    if v.timestamp is Some {
        ",\"timestamp\":"@ + quoted(v.timestamp->0)
    } else {
        Seq::<char>::empty()
    }) + "}}"@
}

/// The pretty-printed JSON rendering of `v`: the same object as [`json_of`],
/// laid out over multiple lines with two-space indentation and a space after
/// each colon.
pub open spec fn pretty_json_of(v: ErrorInfoView) -> Seq<char> {
    "{\n  \"error\": {\n    \"type\": "@ + quoted(v.error_type) + ",\n    \"message\": "@ + quoted(
        v.message,
    ) + ",\n    \"details\": "@ + quoted(v.details) + ",\n    \"status\": "@ + digits_of(
        v.status as nat,
    ) + (if v.timestamp is Some {
        ",\n    \"timestamp\": "@ + quoted(v.timestamp->0)
    } else {
        Seq::<char>::empty()
    }) + "\n  }\n}"@
}

impl ErrorInfo {
    /// Builds the plain (untimestamped) variant. Every input is accepted:
    /// empty strings and any status value included; construction cannot fail.
    pub fn new(error_type: &str, message: &str, status: u16, details: &str) -> (r: ErrorInfo)
        ensures
            r@.error_type == error_type@,
            r@.message == message@,
            r@.status == status,
            r@.details == details@,
            r@.timestamp is None,
    {
        ErrorInfo {
            error_type: error_type.to_owned(),
            message: message.to_owned(),
            details: details.to_owned(),
            status: status,
            timestamp: None,
        }
    }

    /// Builds the timestamped variant from a caller-supplied timestamp
    /// string, copied in like every other field.
    pub fn new_with_timestamp(
        error_type: &str,
        message: &str,
        status: u16,
        details: &str,
        timestamp: &str,
    ) -> (r: ErrorInfo)
        ensures
            r@.error_type == error_type@,
            r@.message == message@,
            r@.status == status,
            r@.details == details@,
            r@.timestamp == Some(timestamp@),
    {
        ErrorInfo {
            error_type: error_type.to_owned(),
            message: message.to_owned(),
            details: details.to_owned(),
            status: status,
            timestamp: Some(timestamp.to_owned()),
        }
    }

    /// Builds the timestamped variant stamped with the current UTC time in
    /// RFC 3339 form. The clock read is the one impure step in this crate, so
    /// nothing is promised of the timestamp's characters beyond presence.
    pub fn new_timestamped(error_type: &str, message: &str, status: u16, details: &str) -> (r:
        ErrorInfo)
        ensures
            r@.error_type == error_type@,
            r@.message == message@,
            r@.status == status,
            r@.details == details@,
            r@.timestamp is Some,
    {
        let stamp = clock::now_rfc3339();
        ErrorInfo::new_with_timestamp(error_type, message, status, details, stamp.as_str())
    }

    /// Serializes `self` compactly; the result is exactly [`json_of`] of this
    /// value. Serialization cannot fail.
    pub fn to_json(&self) -> (r: String)
        ensures
            r@ == json_of(self@),
    {
        let mut out: Vec<char> = Vec::new();
        json::push_chars(&mut out, "{\"error\":{\"type\":");
        json::push_quoted(&mut out, self.error_type.as_str());
        json::push_chars(&mut out, ",\"message\":");
        json::push_quoted(&mut out, self.message.as_str());
        json::push_chars(&mut out, ",\"details\":");
        json::push_quoted(&mut out, self.details.as_str());
        json::push_chars(&mut out, ",\"status\":");
        json::push_u16(&mut out, self.status);
        match &self.timestamp {
            Some(stamp) => {
                json::push_chars(&mut out, ",\"timestamp\":");
                json::push_quoted(&mut out, stamp.as_str());
            },
            None => {},
        }
        json::push_chars(&mut out, "}}");
        proof {
            assert(out@ =~= json_of(self@));
        }
        json::chars_to_string(&out)
    }

    /// Renders `self` for display: the pretty-printed form of the same JSON
    /// object that [`ErrorInfo::to_json`] produces. Unlike a
    /// serializer-backed display path, this cannot fail or panic.
    pub fn to_json_pretty(&self) -> (r: String)
        ensures
            r@ == pretty_json_of(self@),
    {
        let mut out: Vec<char> = Vec::new();
        json::push_chars(&mut out, "{\n  \"error\": {\n    \"type\": ");
        json::push_quoted(&mut out, self.error_type.as_str());
        json::push_chars(&mut out, ",\n    \"message\": ");
        json::push_quoted(&mut out, self.message.as_str());
        json::push_chars(&mut out, ",\n    \"details\": ");
        json::push_quoted(&mut out, self.details.as_str());
        json::push_chars(&mut out, ",\n    \"status\": ");
        json::push_u16(&mut out, self.status);
        match &self.timestamp {
            Some(stamp) => {
                json::push_chars(&mut out, ",\n    \"timestamp\": ");
                json::push_quoted(&mut out, stamp.as_str());
            },
            None => {},
        }
        json::push_chars(&mut out, "\n  }\n}");
        proof {
            assert(out@ =~= pretty_json_of(self@));
        }
        json::chars_to_string(&out)
    }
}

/// The members of the JSON document an [`ErrorInfo`] renders as, in their
/// wire order: `type`, `message`, `details`, `status` and, in the
/// timestamped variant, `timestamp`.
pub open spec fn error_members(v: ErrorInfoView) -> Seq<(Seq<char>, JsonAtom)> {
    let base = seq![
        ("type"@, JsonAtom::Text(v.error_type)),
        ("message"@, JsonAtom::Text(v.message)),
        ("details"@, JsonAtom::Text(v.details)),
        ("status"@, JsonAtom::Num(v.status as nat)),
    ];
    if v.timestamp is Some {
        base.push(("timestamp"@, JsonAtom::Text(v.timestamp->0)))
    } else {
        base
    }
}

/// Display and serialization agree on content: the compact serialization and
/// the pretty display render one and the same JSON document — a top-level
/// object whose single key `error` holds the members of [`error_members`] —
/// differing only in layout.
pub proof fn lemma_same_document(v: ErrorInfoView)
    ensures
        json_of(v) == wrapped_compact("error"@, error_members(v)),
        pretty_json_of(v) == wrapped_pretty("error"@, error_members(v)),
{
    lemma_compact_document(v);
    lemma_pretty_document(v);
}

/// The compact serialization renders exactly the document of
/// [`error_members`] under the single top-level key `error`.
#[verifier::rlimit(100)]
proof fn lemma_compact_document(v: ErrorInfoView)
    ensures
        json_of(v) == wrapped_compact("error"@, error_members(v)),
{
    reveal_strlit("error");
    reveal_strlit("type");
    reveal_strlit("message");
    reveal_strlit("details");
    reveal_strlit("status");
    reveal_strlit("timestamp");
    reveal_strlit("{\"error\":{\"type\":");
    reveal_strlit(",\"message\":");
    reveal_strlit(",\"details\":");
    reveal_strlit(",\"status\":");
    reveal_strlit(",\"timestamp\":");
    reveal_strlit("}}");
    let m0 = ("type"@, JsonAtom::Text(v.error_type));
    let m1 = ("message"@, JsonAtom::Text(v.message));
    let m2 = ("details"@, JsonAtom::Text(v.details));
    let m3 = ("status"@, JsonAtom::Num(v.status as nat));
    let ms = error_members(v);
    assert("{\"error\":{\"type\":"@ =~= seq!['{', '"'] + "error"@ + seq!['"', ':', '{'] + seq!['"']
        + "type"@ + seq!['"', ':']);
    assert(",\"message\":"@ =~= seq![','] + seq!['"'] + "message"@ + seq!['"', ':']);
    assert(",\"details\":"@ =~= seq![','] + seq!['"'] + "details"@ + seq!['"', ':']);
    assert(",\"status\":"@ =~= seq![','] + seq!['"'] + "status"@ + seq!['"', ':']);
    assert(",\"timestamp\":"@ =~= seq![','] + seq!['"'] + "timestamp"@ + seq!['"', ':']);
    assert("}}"@ =~= seq!['}', '}']);
    if v.timestamp is Some {
        let m4 = ("timestamp"@, JsonAtom::Text(v.timestamp->0));
        let r1 = seq![m1, m2, m3, m4];
        let r2 = seq![m2, m3, m4];
        let r3 = seq![m3, m4];
        let r4 = seq![m4];
        assert(ms =~= seq![m0, m1, m2, m3, m4]);
        assert(ms.drop_first() =~= r1);
        assert(r1.drop_first() =~= r2);
        assert(r2.drop_first() =~= r3);
        assert(r3.drop_first() =~= r4);
        lemma_members_compact_unfold(ms);
        lemma_members_compact_unfold(r1);
        lemma_members_compact_unfold(r2);
        lemma_members_compact_unfold(r3);
        assert(members_compact(r4) == member_compact(m4.0, m4.1));
        assert(json_of(v) =~= wrapped_compact("error"@, ms));
    } else {
        let r1 = seq![m1, m2, m3];
        let r2 = seq![m2, m3];
        let r3 = seq![m3];
        assert(ms =~= seq![m0, m1, m2, m3]);
        assert(ms.drop_first() =~= r1);
        assert(r1.drop_first() =~= r2);
        assert(r2.drop_first() =~= r3);
        lemma_members_compact_unfold(ms);
        lemma_members_compact_unfold(r1);
        lemma_members_compact_unfold(r2);
        assert(members_compact(r3) == member_compact(m3.0, m3.1));
        assert(json_of(v) =~= wrapped_compact("error"@, ms));
    }
}

/// The pretty rendering renders exactly the document of [`error_members`]
/// under the single top-level key `error`.
#[verifier::rlimit(100)]
proof fn lemma_pretty_document(v: ErrorInfoView)
    ensures
        pretty_json_of(v) == wrapped_pretty("error"@, error_members(v)),
{
    reveal_strlit("error");
    reveal_strlit("type");
    reveal_strlit("message");
    reveal_strlit("details");
    reveal_strlit("status");
    reveal_strlit("timestamp");
    reveal_strlit("{\n  \"error\": {\n    \"type\": ");
    reveal_strlit(",\n    \"message\": ");
    reveal_strlit(",\n    \"details\": ");
    reveal_strlit(",\n    \"status\": ");
    reveal_strlit(",\n    \"timestamp\": ");
    reveal_strlit("\n  }\n}");
    let ind = seq![' ', ' ', ' ', ' '];
    let m0 = ("type"@, JsonAtom::Text(v.error_type));
    let m1 = ("message"@, JsonAtom::Text(v.message));
    let m2 = ("details"@, JsonAtom::Text(v.details));
    let m3 = ("status"@, JsonAtom::Num(v.status as nat));
    let ms = error_members(v);
    assert("{\n  \"error\": {\n    \"type\": "@ =~= seq!['{', '\n', ' ', ' ', '"'] + "error"@
        + seq!['"', ':', ' '] + seq!['{', '\n'] + ind + seq!['"'] + "type"@ + seq!['"', ':', ' ']);
    assert(",\n    \"message\": "@ =~= seq![',', '\n'] + ind + seq!['"'] + "message"@ + seq!['"', ':', ' ']);
    assert(",\n    \"details\": "@ =~= seq![',', '\n'] + ind + seq!['"'] + "details"@ + seq!['"', ':', ' ']);
    assert(",\n    \"status\": "@ =~= seq![',', '\n'] + ind + seq!['"'] + "status"@ + seq!['"', ':', ' ']);
    assert(",\n    \"timestamp\": "@ =~= seq![',', '\n'] + ind + seq!['"'] + "timestamp"@ + seq!['"', ':', ' ']);
    assert("\n  }\n}"@ =~= seq!['\n', ' ', ' ', '}'] + seq!['\n', '}']);
    if v.timestamp is Some {
        let m4 = ("timestamp"@, JsonAtom::Text(v.timestamp->0));
        let r1 = seq![m1, m2, m3, m4];
        let r2 = seq![m2, m3, m4];
        let r3 = seq![m3, m4];
        let r4 = seq![m4];
        assert(ms =~= seq![m0, m1, m2, m3, m4]);
        assert(ms.drop_first() =~= r1);
        assert(r1.drop_first() =~= r2);
        assert(r2.drop_first() =~= r3);
        assert(r3.drop_first() =~= r4);
        lemma_members_pretty_unfold(ms, ind);
        lemma_members_pretty_unfold(r1, ind);
        lemma_members_pretty_unfold(r2, ind);
        lemma_members_pretty_unfold(r3, ind);
        assert(members_pretty(r4, ind) == ind + member_pretty(m4.0, m4.1));
        assert(pretty_json_of(v) =~= wrapped_pretty("error"@, ms));
    } else {
        let r1 = seq![m1, m2, m3];
        let r2 = seq![m2, m3];
        let r3 = seq![m3];
        assert(ms =~= seq![m0, m1, m2, m3]);
        assert(ms.drop_first() =~= r1);
        assert(r1.drop_first() =~= r2);
        assert(r2.drop_first() =~= r3);
        lemma_members_pretty_unfold(ms, ind);
        lemma_members_pretty_unfold(r1, ind);
        lemma_members_pretty_unfold(r2, ind);
        assert(members_pretty(r3, ind) == ind + member_pretty(m3.0, m3.1));
        assert(pretty_json_of(v) =~= wrapped_pretty("error"@, ms));
    }
}

/// The rendered document determines the value: two `ErrorInfo` values whose
/// serializations carry the same members are equal. Together with
/// [`lemma_same_document`] and [`crate::json::lemma_unescape_escape`], this
/// says that reading the serialized JSON back recovers exactly the fields
/// the value was constructed from.
pub proof fn lemma_members_determine_value(a: ErrorInfoView, b: ErrorInfoView)
    requires
        error_members(a) == error_members(b),
    ensures
        a == b,
{
    let ma = error_members(a);
    let mb = error_members(b);
    assert(ma[0] == mb[0] && ma[1] == mb[1] && ma[2] == mb[2] && ma[3] == mb[3]);
    if a.timestamp is Some {
        assert(mb.len() == 5);
        assert(b.timestamp is Some);
        assert(ma[4] == mb[4]);
    } else {
        assert(mb.len() == 4);
        assert(b.timestamp is None);
    }
}

/// The compact serialization is injective: two values that serialize to the
/// same text are equal, so parsing the serialized JSON back recovers exactly
/// the fields the value was constructed from.
#[verifier::rlimit(100)]
pub proof fn lemma_serialization_injective(a: ErrorInfoView, b: ErrorInfoView)
    requires
        json_of(a) == json_of(b),
    ensures
        a == b,
{
    reveal_strlit(",\"timestamp\":");
    reveal_strlit("}}");
    let tail_a = if a.timestamp is Some {
        ",\"timestamp\":"@ + (quoted(a.timestamp->0) + "}}"@)
    } else {
        "}}"@
    };
    let tail_b = if b.timestamp is Some {
        ",\"timestamp\":"@ + (quoted(b.timestamp->0) + "}}"@)
    } else {
        "}}"@
    };
    let a4 = digits_of(a.status as nat) + tail_a;
    let a3 = quoted(a.details) + (",\"status\":"@ + a4);
    let a2 = quoted(a.message) + (",\"details\":"@ + a3);
    let a1 = quoted(a.error_type) + (",\"message\":"@ + a2);
    let b4 = digits_of(b.status as nat) + tail_b;
    let b3 = quoted(b.details) + (",\"status\":"@ + b4);
    let b2 = quoted(b.message) + (",\"details\":"@ + b3);
    let b1 = quoted(b.error_type) + (",\"message\":"@ + b2);
    assert(json_of(a) =~= "{\"error\":{\"type\":"@ + a1);
    assert(json_of(b) =~= "{\"error\":{\"type\":"@ + b1);
    lemma_cancel_prefix("{\"error\":{\"type\":"@, a1, b1);
    lemma_quoted_prefix(a.error_type, b.error_type, ",\"message\":"@ + a2, ",\"message\":"@ + b2);
    lemma_cancel_prefix(",\"message\":"@, a2, b2);
    lemma_quoted_prefix(a.message, b.message, ",\"details\":"@ + a3, ",\"details\":"@ + b3);
    lemma_cancel_prefix(",\"details\":"@, a3, b3);
    lemma_quoted_prefix(a.details, b.details, ",\"status\":"@ + a4, ",\"status\":"@ + b4);
    lemma_cancel_prefix(",\"status\":"@, a4, b4);
    assert(tail_a.len() > 0 && !is_digit(tail_a[0]));
    assert(tail_b.len() > 0 && !is_digit(tail_b[0]));
    lemma_digits_prefix(a.status as nat, b.status as nat, tail_a, tail_b);
    assert(a.status == b.status);
    if a.timestamp is Some && b.timestamp is Some {
        lemma_cancel_prefix(
            ",\"timestamp\":"@,
            quoted(a.timestamp->0) + "}}"@,
            quoted(b.timestamp->0) + "}}"@,
        );
        lemma_quoted_prefix(a.timestamp->0, b.timestamp->0, "}}"@, "}}"@);
        assert(a.timestamp == b.timestamp);
    } else if a.timestamp is Some {
        assert(tail_a[0] == ',' && tail_b[0] == '}');
    } else if b.timestamp is Some {
        assert(tail_a[0] == '}' && tail_b[0] == ',');
    }
    assert(a == b);
}

/// Serialization is deterministic: rendering equal values, in either form,
/// gives byte-identical text, however many times it is repeated.
pub proof fn lemma_serialization_deterministic(a: ErrorInfoView, b: ErrorInfoView)
    requires
        a == b,
    ensures
        json_of(a) == json_of(b),
        pretty_json_of(a) == pretty_json_of(b),
{
}

} // verus!
