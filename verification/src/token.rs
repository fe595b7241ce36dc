//! The format-selection payload: a compact, self-validating serialization of
//! `{message reference, format, language}` embedded in each prompt button.
//! Corruption or truncation is detected as a decode failure, never a crash.
use vstd::prelude::*;
use crate::media::Format;
use crate::strings::Language;
use crate::hex::{
    hex16_seq,
    hex16_ok,
    hex16_val,
    lemma_hex16_roundtrip,
    lemma_hex16_inverse,
    push_hex16,
    read_hex16,
};

verus! {

/// The transient download request round-tripped through a button press:
/// which prompt message it belongs to, the chosen format, and the language
/// the flow is rendered in. Never persisted.
#[derive(Clone, Copy, PartialEq, Eq, Structural, Debug)]
pub struct DownloadRequest {
    pub id: u64,
    pub format: Format,
    pub language: Language,
}

/// The payload byte standing for each format.
pub open spec fn fmt_byte(f: Format) -> u8 {
    match f {
        Format::FullHD => 70,
        Format::HD => 72,
        Format::LowRes => 76,
        Format::AudioOnly => 65,
    }
}

/// The payload byte standing for each language.
pub open spec fn lang_byte(l: Language) -> u8 {
    match l {
        Language::English => 69,
        Language::Russian => 82,
    }
}

/// The exact payload of a request: a two-byte tag, the message reference in
/// hex, a format byte and a language byte.
pub open spec fn spec_token(t: DownloadRequest) -> Seq<u8> {
    seq![68u8, 76u8] + hex16_seq(t.id) + seq![fmt_byte(t.format), lang_byte(t.language)]
}

/// Law: distinct requests serialize to distinct payloads.
pub proof fn lemma_token_injective(t1: DownloadRequest, t2: DownloadRequest)
    requires
        spec_token(t1) == spec_token(t2),
    ensures
        t1 == t2,
{
    let s1 = spec_token(t1);
    let s2 = spec_token(t2);
    assert(hex16_seq(t1.id).len() == 16);
    assert(hex16_seq(t2.id).len() == 16);
    assert(s1.subrange(2, 18) =~= hex16_seq(t1.id));
    assert(s2.subrange(2, 18) =~= hex16_seq(t2.id));
    lemma_hex16_roundtrip(t1.id);
    lemma_hex16_roundtrip(t2.id);
    assert(t1.id == hex16_val(s1.subrange(2, 18)));
    assert(t2.id == hex16_val(s2.subrange(2, 18)));
    assert(s1[18] == fmt_byte(t1.format));
    assert(s2[18] == fmt_byte(t2.format));
    assert(s1[19] == lang_byte(t1.language));
    assert(s2[19] == lang_byte(t2.language));
}

/// Serializes a request into its button payload.
pub fn encode_token(t: &DownloadRequest) -> (r: Vec<u8>)
    ensures
        r@ == spec_token(*t),
        r@.len() == 20,
{
    let mut out: Vec<u8> = Vec::new();
    out.push(68);
    out.push(76);
    push_hex16(&mut out, t.id);
    let fb: u8 = match t.format {
        Format::FullHD => 70,
        Format::HD => 72,
        Format::LowRes => 76,
        Format::AudioOnly => 65,
    };
    out.push(fb);
    let lb: u8 = match t.language {
        Language::English => 69,
        Language::Russian => 82,
    };
    out.push(lb);
    proof {
        assert(hex16_seq(t.id).len() == 16);
        assert(out@ =~= spec_token(*t));
    }
    out
}

/// Deserializes a button payload; yields the unique request it came from, or
/// nothing if no request serializes to these bytes.
pub fn decode_token(b: &Vec<u8>) -> (r: Option<DownloadRequest>)
    ensures
        r matches Some(t) ==> b@ == spec_token(t),
        forall|t: DownloadRequest| b@ == spec_token(t) ==> r == Some(t),
{
    proof {
        assert forall|t: DownloadRequest| #[trigger] spec_token(t).len() == 20 by {
            assert(hex16_seq(t.id).len() == 16);
        }
    }
    if b.len() != 20 {
        return None;
    }
    if b[0] != 68 || b[1] != 76 {
        proof {
            assert forall|t: DownloadRequest| b@ != spec_token(t) by {
                assert(spec_token(t)[0] == 68 && spec_token(t)[1] == 76);
            }
        }
        return None;
    }
    let id = match read_hex16(b, 2) {
        Some(n) => n,
        None => {
            proof {
                assert forall|t: DownloadRequest| b@ != spec_token(t) by {
                    if b@ == spec_token(t) {
                        assert(hex16_seq(t.id).len() == 16);
                        assert(b@.subrange(2, 18) =~= hex16_seq(t.id));
                        lemma_hex16_roundtrip(t.id);
                    }
                }
            }
            return None;
        },
    };
    let format = match b[18] {
        70u8 => Format::FullHD,
        72u8 => Format::HD,
        76u8 => Format::LowRes,
        65u8 => Format::AudioOnly,
        _ => {
            proof {
                assert forall|t: DownloadRequest| b@ != spec_token(t) by {
                    if b@ == spec_token(t) {
                        assert(hex16_seq(t.id).len() == 16);
                        assert(spec_token(t)[18] == fmt_byte(t.format));
                    }
                }
            }
            return None;
        },
    };
    let language = match b[19] {
        69u8 => Language::English,
        82u8 => Language::Russian,
        _ => {
            proof {
                assert forall|t: DownloadRequest| b@ != spec_token(t) by {
                    if b@ == spec_token(t) {
                        assert(hex16_seq(t.id).len() == 16);
                        assert(spec_token(t)[19] == lang_byte(t.language));
                    }
                }
            }
            return None;
        },
    };
    let t = DownloadRequest { id, format, language };
    proof {
        let sub = b@.subrange(2, 18);
        lemma_hex16_inverse(sub);
        assert(hex16_seq(t.id) == sub);
        assert(b@ =~= spec_token(t));
        assert forall|t2: DownloadRequest| b@ == spec_token(t2) implies t2 == t by {
            lemma_token_injective(t2, t);
        }
    }
    Some(t)
}

} // verus!
