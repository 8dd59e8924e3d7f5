//! Client identifiers made from random UUIDs.

use vstd::prelude::*;

use crate::text::{all_ascii, byte_len, is_ascii_char, lemma_ascii_byte_len, push_char};

verus! {

/// A lowercase hexadecimal digit.
pub open spec fn is_hex_lower(c: char) -> bool {
    ('0' <= c <= '9') || ('a' <= c <= 'f')
}

/// The text form of a version 4 UUID: 36 characters, groups of 8, 4, 4, 4 and 12
/// lowercase hexadecimal digits separated by hyphens, with the version digit `4`.
pub open spec fn is_uuid_v4_text(s: Seq<char>) -> bool {
    &&& s.len() == 36
    &&& forall|i: int|
        0 <= i < 36 ==> if i == 8 || i == 13 || i == 18 || i == 23 {
            #[trigger] s[i] == '-'
        } else {
            is_hex_lower(s[i])
        }
    &&& s[14] == '4'
}

/// Calls `uuid::Uuid::new_v4` and writes the UUID with `to_string`, which gives the
/// hyphenated lowercase form. The contract claims only that form and the version
/// digit: the other digits are random. (The call panics only when the system's
/// random source fails.)
#[verifier::external_body]
pub(crate) fn new_uuid_text() -> (s: String)
    ensures
        is_uuid_v4_text(s@),
{
    uuid::Uuid::new_v4().to_string()
}

/// The characters of `s` before its first hyphen (all of `s` when it has none).
pub open spec fn first_segment(s: Seq<char>) -> Seq<char>
    decreases s.len(),
{
    if s.len() == 0 {
        s
    } else if s[0] == '-' {
        Seq::empty()
    } else {
        seq![s[0]] + first_segment(s.drop_first())
    }
}

pub proof fn lemma_first_segment(s: Seq<char>, i: int)
    requires
        0 <= i <= s.len(),
        forall|j: int| 0 <= j < i ==> s[j] != '-',
        i == s.len() || s[i] == '-',
    ensures
        first_segment(s) == s.take(i),
    decreases s.len(),
{
    if s.len() == 0 {
        assert(s.take(i) =~= s);
    } else if i == 0 {
        assert(s.take(0) =~= Seq::<char>::empty());
    } else {
        let t = s.drop_first();
        assert forall|j: int| 0 <= j < i - 1 implies t[j] != '-' by {
            assert(t[j] == s[j + 1]);
        }
        lemma_first_segment(t, i - 1);
        assert(seq![s[0]] + t.take(i - 1) =~= s.take(i));
    }
}

/// The client identifier made from a UUID text: `mqtt_tui_` and the UUID's first group.
pub open spec fn client_id_from(uuid_text: Seq<char>) -> Seq<char> {
    "mqtt_tui_"@ + first_segment(uuid_text)
}

/// Builds the client identifier `mqtt_tui_` followed by the text before the first
/// hyphen of `uuid_text`.
pub fn client_id_from_uuid(uuid_text: &str) -> (id: String)
    ensures
        id@ == client_id_from(uuid_text@),
{
    let mut id = String::new();
    id.append("mqtt_tui_");
    let n = uuid_text.unicode_len();
    let mut i: usize = 0;
    while i < n
        invariant
            n == uuid_text@.len(),
            0 <= i <= n,
            id@ == "mqtt_tui_"@ + uuid_text@.take(i as int),
            forall|j: int| 0 <= j < i ==> uuid_text@[j] != '-',
        ensures
            0 <= i <= n,
            i == n || uuid_text@[i as int] == '-',
        decreases n - i,
    {
        let c = uuid_text.get_char(i);
        if c == '-' {
            break;
        }
        push_char(&mut id, c);
        proof {
            assert(uuid_text@.take(i + 1) =~= uuid_text@.take(i as int).push(c));
            assert(id@ =~= "mqtt_tui_"@ + uuid_text@.take(i + 1));
        }
        i = i + 1;
    }
    proof {
        lemma_first_segment(uuid_text@, i as int);
    }
    id
}

/// A client identifier made by [`generate_client_id`]: `mqtt_tui_` and eight
/// lowercase hexadecimal digits.
pub open spec fn is_generated_client_id(id: Seq<char>) -> bool {
    &&& id.len() == 17
    &&& id.take(9) == "mqtt_tui_"@
    &&& forall|i: int| 9 <= i < 17 ==> is_hex_lower(#[trigger] id[i])
}

/// A fresh client identifier from a random UUID.
pub fn generate_client_id() -> (id: String)
    ensures
        is_generated_client_id(id@),
        all_ascii(id@),
        byte_len(id@) == 17,
{
    let u = new_uuid_text();
    let id = client_id_from_uuid(u.as_str());
    proof {
        reveal_strlit("mqtt_tui_");
        assert forall|j: int| 0 <= j < 8 implies u@[j] != '-' by {
            assert(is_hex_lower(u@[j]));
        }
        lemma_first_segment(u@, 8);
        assert(id@.take(9) =~= "mqtt_tui_"@);
        assert forall|i: int| 9 <= i < 17 implies is_hex_lower(#[trigger] id@[i]) by {
            assert(id@[i] == u@[i - 9]);
        }
        assert forall|i: int| 0 <= i < id@.len() implies is_ascii_char(#[trigger] id@[i]) by {
            if i >= 9 {
                assert(is_hex_lower(id@[i]));
            }
        }
        lemma_ascii_byte_len(id@);
    }
    id
}

} // verus!
