//! Inbound envelope decoding.  An inbound body is a JSON object whose `type`
//! field carries the variant discriminant; variant selection and discriminant
//! validation are one step: a wrongly tagged or malformed body never yields a
//! value.  Unknown members are skipped after full validation; a duplicated
//! `type` member makes the body unrecognized, and a duplicated `data` or
//! `name` member spoils the command payload.  As in the value grammar, the
//! recursive specification functions carry index-progress guards that make
//! the recursion well-founded.

use vstd::prelude::*;
use crate::json::{
    is_digit, s_parse_string, s_skip_value, s_skip_ws, s_tag_value, parse_string, skip_value,
    skip_ws, tag_value, MAX_DEPTH,
};

verus! {

/// Discriminant of the keepalive ping interaction.
pub const INTERACTION_PING: u64 = 1;

/// Discriminant of the application-command interaction.
pub const INTERACTION_APPLICATION_COMMAND: u64 = 2;

/// Nesting allowed inside the values of the envelope object.
pub const ENV_VALUE_DEPTH: u32 = MAX_DEPTH - 1;

/// Nesting allowed inside the values of the command payload object.
pub const DATA_VALUE_DEPTH: u32 = MAX_DEPTH - 2;

/// One inbound interaction, its discriminant already validated.
#[derive(Debug, PartialEq, Eq)]
pub enum Interaction {
    /// Keepalive ping (`type` equal to [`INTERACTION_PING`]).
    Ping,
    /// User-issued command (`type` equal to [`INTERACTION_APPLICATION_COMMAND`]),
    /// with the command name from the payload's `name` field.
    ApplicationCommand { name: Vec<u8> },
}

/// Decoding failure: the body does not match any known tagged variant.
#[derive(Debug, Clone, Copy, PartialEq, Eq, Structural)]
pub enum DecodeError {
    UnrecognizedEnvelope,
}

/// What envelope decoding observes of a body: the `type` discriminant, where
/// one well-formed `u64` discriminant is present, and the command name, where
/// one well-formed `data` object with one string `name` member is present.
pub struct SpecFields {
    pub tag: Option<u64>,
    pub name: Option<Seq<u8>>,
}

/// Decoded shape of a body at the specification level.
pub enum SpecInteraction {
    Ping,
    ApplicationCommand(Seq<u8>),
}

/// The bytes of the key `type`.
pub open spec fn key_type() -> Seq<u8> {
    seq![116u8, 121u8, 112u8, 101u8]
}

/// The bytes of the key `data`.
pub open spec fn key_data() -> Seq<u8> {
    seq![100u8, 97u8, 116u8, 97u8]
}

/// The bytes of the key `name`.
pub open spec fn key_name() -> Seq<u8> {
    seq![110u8, 97u8, 109u8, 101u8]
}

/// View of an optional byte vector.
pub open spec fn opt_bytes(o: Option<Vec<u8>>) -> Option<Seq<u8>> {
    match o {
        Option::None => Option::None,
        Option::Some(v) => Option::Some(v@),
    }
}

/// Members of the command payload object, reading at the start of a key at
/// `i`: resolves to the payload's string `name` member, with `seen` and
/// `name` accumulating what was read so far.  A duplicated `name` member, or
/// one that is not a string, leaves the name unusable.
pub open spec fn s_name_members(s: Seq<u8>, i: int, seen: bool, name: Option<Seq<u8>>) -> Option<
    (Option<Seq<u8>>, int),
>
    decreases s.len() - i, 0int,
{
    match s_parse_string(s, i) {
        None => None,
        Some((key, j1)) => {
            let j2 = s_skip_ws(s, j1);
            if !(j2 < s.len() && s[j2] == 58) {
                None
            } else {
                let j3 = s_skip_ws(s, j2 + 1);
                if !(i < j3 && j3 <= s.len()) {
                    None
                } else if key == key_name() && !seen && j3 < s.len() && s[j3] == 34 {
                    match s_parse_string(s, j3) {
                        None => None,
                        Some((nm, j4)) => if i < j4 && j4 <= s.len() {
                            s_name_tail(s, j4, true, Some(nm))
                        } else {
                            None
                        },
                    }
                } else {
                    match s_skip_value(s, j3, DATA_VALUE_DEPTH as nat) {
                        None => None,
                        Some(j4) => if i < j4 && j4 <= s.len() {
                            if key == key_name() {
                                s_name_tail(s, j4, true, None)
                            } else {
                                s_name_tail(s, j4, seen, name)
                            }
                        } else {
                            None
                        },
                    }
                }
            }
        },
    }
}

/// After one payload member: close the object or read the next member.
pub open spec fn s_name_tail(s: Seq<u8>, i: int, seen: bool, name: Option<Seq<u8>>) -> Option<
    (Option<Seq<u8>>, int),
>
    decreases s.len() - i, 1int,
{
    let j = s_skip_ws(s, i);
    if j < s.len() && s[j] == 125 {
        Some((name, j + 1))
    } else if j < s.len() && s[j] == 44 {
        let j2 = s_skip_ws(s, j + 1);
        if i < j2 && j2 <= s.len() {
            s_name_members(s, j2, seen, name)
        } else {
            None
        }
    } else {
        None
    }
}

/// The `data` member's value: the payload name it carries, where it is an
/// object with a usable `name` member, and its end position.
pub open spec fn s_data_value(s: Seq<u8>, i: int) -> Option<(Option<Seq<u8>>, int)>
    decreases s.len() - i, 2int,
{
    if 0 <= i && i < s.len() && s[i] == 123 {
        let j = s_skip_ws(s, i + 1);
        if j < s.len() && s[j] == 125 {
            Some((None, j + 1))
        } else if i < j && j <= s.len() {
            s_name_members(s, j, false, None)
        } else {
            None
        }
    } else {
        match s_skip_value(s, i, ENV_VALUE_DEPTH as nat) {
            None => None,
            Some(j) => Some((None, j)),
        }
    }
}

/// Members of the envelope object, reading at the start of a key at `i`,
/// with the discriminant and payload name read so far.  A duplicated `type`
/// member makes the body unrecognized; a duplicated `data` member spoils the
/// payload.
pub open spec fn s_env_members(
    s: Seq<u8>,
    i: int,
    tag_seen: bool,
    tag: Option<u64>,
    data_seen: bool,
    name: Option<Seq<u8>>,
) -> Option<(SpecFields, int)>
    decreases s.len() - i, 3int,
{
    match s_parse_string(s, i) {
        None => None,
        Some((key, j1)) => {
            let j2 = s_skip_ws(s, j1);
            if !(j2 < s.len() && s[j2] == 58) {
                None
            } else {
                let j3 = s_skip_ws(s, j2 + 1);
                if !(i < j3 && j3 <= s.len()) {
                    None
                } else if key == key_type() {
                    if tag_seen {
                        None
                    } else if j3 < s.len() && (s[j3] == 45 || is_digit(s[j3])) {
                        match s_tag_value(s, j3) {
                            None => None,
                            Some((tv, j4)) => if i < j4 && j4 <= s.len() {
                                s_env_tail(s, j4, true, tv, data_seen, name)
                            } else {
                                None
                            },
                        }
                    } else {
                        match s_skip_value(s, j3, ENV_VALUE_DEPTH as nat) {
                            None => None,
                            Some(j4) => if i < j4 && j4 <= s.len() {
                                s_env_tail(s, j4, true, None, data_seen, name)
                            } else {
                                None
                            },
                        }
                    }
                } else if key == key_data() {
                    if data_seen {
                        match s_skip_value(s, j3, ENV_VALUE_DEPTH as nat) {
                            None => None,
                            Some(j4) => if i < j4 && j4 <= s.len() {
                                s_env_tail(s, j4, tag_seen, tag, true, None)
                            } else {
                                None
                            },
                        }
                    } else {
                        match s_data_value(s, j3) {
                            None => None,
                            Some((nm, j4)) => if i < j4 && j4 <= s.len() {
                                s_env_tail(s, j4, tag_seen, tag, true, nm)
                            } else {
                                None
                            },
                        }
                    }
                } else {
                    match s_skip_value(s, j3, ENV_VALUE_DEPTH as nat) {
                        None => None,
                        Some(j4) => if i < j4 && j4 <= s.len() {
                            s_env_tail(s, j4, tag_seen, tag, data_seen, name)
                        } else {
                            None
                        },
                    }
                }
            }
        },
    }
}

/// After one envelope member: close the object or read the next member.
pub open spec fn s_env_tail(
    s: Seq<u8>,
    i: int,
    tag_seen: bool,
    tag: Option<u64>,
    data_seen: bool,
    name: Option<Seq<u8>>,
) -> Option<(SpecFields, int)>
    decreases s.len() - i, 4int,
{
    let j = s_skip_ws(s, i);
    if j < s.len() && s[j] == 125 {
        Some((SpecFields { tag, name }, j + 1))
    } else if j < s.len() && s[j] == 44 {
        let j2 = s_skip_ws(s, j + 1);
        if i < j2 && j2 <= s.len() {
            s_env_members(s, j2, tag_seen, tag, data_seen, name)
        } else {
            None
        }
    } else {
        None
    }
}

/// What envelope decoding observes of the whole body: the body must be one
/// JSON object with nothing but whitespace around it.
pub open spec fn s_envelope(s: Seq<u8>) -> Option<SpecFields> {
    let i = s_skip_ws(s, 0);
    if i < s.len() && s[i] == 123 {
        let j = s_skip_ws(s, i + 1);
        if j < s.len() && s[j] == 125 {
            if s_skip_ws(s, j + 1) == s.len() {
                Some(SpecFields { tag: None, name: None })
            } else {
                None
            }
        } else if i < j && j <= s.len() {
            match s_env_members(s, j, false, None, false, None) {
                None => None,
                Some((f, end)) => if s_skip_ws(s, end) == s.len() {
                    Some(f)
                } else {
                    None
                },
            }
        } else {
            None
        }
    } else {
        None
    }
}

/// The variant a body decodes to: `Ping` exactly when the discriminant equals
/// [`INTERACTION_PING`]; a command exactly when it equals
/// [`INTERACTION_APPLICATION_COMMAND`] and the payload carries a usable name.
pub open spec fn s_decode(s: Seq<u8>) -> Option<SpecInteraction> {
    match s_envelope(s) {
        None => None,
        Some(f) => if f.tag == Some(INTERACTION_PING) {
            Some(SpecInteraction::Ping)
        } else if f.tag == Some(INTERACTION_APPLICATION_COMMAND) && f.name is Some {
            Some(SpecInteraction::ApplicationCommand(f.name.unwrap()))
        } else {
            None
        },
    }
}

/// `k` equals the 4-byte key `a b c d`.
fn key_is(k: &Vec<u8>, a: u8, b: u8, c: u8, d: u8) -> (r: bool)
    ensures
        r == (k@ == seq![a, b, c, d]),
{
    let r = k.len() == 4 && k[0] == a && k[1] == b && k[2] == c && k[3] == d;
    proof {
        if r {
            assert(k@ =~= seq![a, b, c, d]);
        } else {
            if k@ == seq![a, b, c, d] {
                assert(k@.len() == 4);
                assert(k@[0] == a && k@[1] == b && k@[2] == c && k@[3] == d);
            }
        }
    }
    r
}

/// Read the `data` member's value, capturing a usable string `name` member.
#[verifier::rlimit(100)]
#[verifier::spinoff_prover]
fn parse_data_value(s: &[u8], i: usize) -> (r: Option<(Option<Vec<u8>>, usize)>)
    requires
        i <= s@.len(),
    ensures
        match r {
            Some(p) => s_data_value(s@, i as int) == Some((opt_bytes(p.0), p.1 as int)) && i < p.1
                <= s@.len(),
            None => s_data_value(s@, i as int) is None,
        },
{
    if !(i < s.len() && s[i] == 123) {
        return match skip_value(s, i, ENV_VALUE_DEPTH) {
            None => None,
            Some(j) => Some((None, j)),
        };
    }
    let j = skip_ws(s, i + 1);
    if j < s.len() && s[j] == 125 {
        return Some((None, j + 1));
    }
    let mut seen = false;
    let mut name: Option<Vec<u8>> = None;
    let mut cur = j;
    loop
        invariant
            i < cur <= s@.len(),
            s_data_value(s@, i as int) == s_name_members(s@, cur as int, seen, opt_bytes(name)),
        decreases s@.len() - cur,
    {
        let ghost seen0 = seen;
        let ghost name0 = opt_bytes(name);
        match parse_string(s, cur) {
            None => {
                return None;
            },
            Some((key, j1)) => {
                let j2 = skip_ws(s, j1);
                if !(j2 < s.len() && s[j2] == 58) {
                    return None;
                }
                let j3 = skip_ws(s, j2 + 1);
                let kn = key_is(&key, 110, 97, 109, 101);
                let j4: usize;
                if kn && !seen && j3 < s.len() && s[j3] == 34 {
                    match parse_string(s, j3) {
                        None => {
                            return None;
                        },
                        Some((nm, je)) => {
                            seen = true;
                            name = Some(nm);
                            j4 = je;
                        },
                    }
                } else {
                    match skip_value(s, j3, DATA_VALUE_DEPTH) {
                        None => {
                            return None;
                        },
                        Some(je) => {
                            if kn {
                                seen = true;
                                name = None;
                            }
                            j4 = je;
                        },
                    }
                }
                proof {
                    assert(s_name_members(s@, cur as int, seen0, name0) == s_name_tail(
                        s@,
                        j4 as int,
                        seen,
                        opt_bytes(name),
                    ));
                }
                let jt = skip_ws(s, j4);
                if jt < s.len() && s[jt] == 125 {
                    return Some((name, jt + 1));
                }
                if !(jt < s.len() && s[jt] == 44) {
                    return None;
                }
                let nxt = skip_ws(s, jt + 1);
                cur = nxt;
            },
        }
    }
}

/// Read the whole body as one envelope object: its `type` discriminant and
/// the command name its payload carries.
#[verifier::rlimit(100)]
#[verifier::spinoff_prover]
pub fn parse_envelope(s: &[u8]) -> (r: Option<(Option<u64>, Option<Vec<u8>>)>)
    ensures
        match r {
            Some(p) => s_envelope(s@) == Some(SpecFields { tag: p.0, name: opt_bytes(p.1) }),
            None => s_envelope(s@) is None,
        },
{
    let i = skip_ws(s, 0);
    if !(i < s.len() && s[i] == 123) {
        return None;
    }
    let j = skip_ws(s, i + 1);
    if j < s.len() && s[j] == 125 {
        let k = skip_ws(s, j + 1);
        if k == s.len() {
            return Some((None, None));
        } else {
            return None;
        }
    }
    let mut tag_seen = false;
    let mut tag: Option<u64> = None;
    let mut data_seen = false;
    let mut name: Option<Vec<u8>> = None;
    let mut cur = j;
    loop
        invariant
            i < cur <= s@.len(),
            s_envelope(s@) == (match s_env_members(
                s@,
                cur as int,
                tag_seen,
                tag,
                data_seen,
                opt_bytes(name),
            ) {
                None => None,
                Some((f, end)) => if s_skip_ws(s@, end) == s@.len() {
                    Some(f)
                } else {
                    None
                },
            }),
        decreases s@.len() - cur,
    {
        let ghost tag_seen0 = tag_seen;
        let ghost tag0 = tag;
        let ghost data_seen0 = data_seen;
        let ghost name0 = opt_bytes(name);
        match parse_string(s, cur) {
            None => {
                return None;
            },
            Some((key, j1)) => {
                let j2 = skip_ws(s, j1);
                if !(j2 < s.len() && s[j2] == 58) {
                    return None;
                }
                let j3 = skip_ws(s, j2 + 1);
                let kt = key_is(&key, 116, 121, 112, 101);
                let kd = key_is(&key, 100, 97, 116, 97);
                let j4: usize;
                if kt {
                    if tag_seen {
                        return None;
                    }
                    if j3 < s.len() && (s[j3] == 45 || (48 <= s[j3] && s[j3] <= 57)) {
                        match tag_value(s, j3) {
                            None => {
                                return None;
                            },
                            Some((tv, je)) => {
                                tag_seen = true;
                                tag = tv;
                                j4 = je;
                            },
                        }
                    } else {
                        match skip_value(s, j3, ENV_VALUE_DEPTH) {
                            None => {
                                return None;
                            },
                            Some(je) => {
                                tag_seen = true;
                                tag = None;
                                j4 = je;
                            },
                        }
                    }
                } else if kd {
                    if data_seen {
                        match skip_value(s, j3, ENV_VALUE_DEPTH) {
                            None => {
                                return None;
                            },
                            Some(je) => {
                                name = None;
                                j4 = je;
                            },
                        }
                    } else {
                        match parse_data_value(s, j3) {
                            None => {
                                return None;
                            },
                            Some((nm, je)) => {
                                data_seen = true;
                                name = nm;
                                j4 = je;
                            },
                        }
                    }
                } else {
                    match skip_value(s, j3, ENV_VALUE_DEPTH) {
                        None => {
                            return None;
                        },
                        Some(je) => {
                            j4 = je;
                        },
                    }
                }
                proof {
                    assert(s_env_members(s@, cur as int, tag_seen0, tag0, data_seen0, name0)
                        == s_env_tail(s@, j4 as int, tag_seen, tag, data_seen, opt_bytes(name)));
                }
                let jt = skip_ws(s, j4);
                if jt < s.len() && s[jt] == 125 {
                    let k2 = skip_ws(s, jt + 1);
                    if k2 == s.len() {
                        return Some((tag, name));
                    } else {
                        return None;
                    }
                }
                if !(jt < s.len() && s[jt] == 44) {
                    return None;
                }
                let nxt = skip_ws(s, jt + 1);
                cur = nxt;
            },
        }
    }
}

/// Decode a body into an interaction.  The discriminant is validated as part
/// of decoding itself: the result is `Ping` exactly when the body is a
/// well-formed envelope whose `type` equals [`INTERACTION_PING`], a command
/// exactly when its `type` equals [`INTERACTION_APPLICATION_COMMAND`] and its
/// payload carries a usable string `name`, and an error otherwise.
pub fn decode(body: &[u8]) -> (r: Result<Interaction, DecodeError>)
    ensures
        match s_decode(body@) {
            None => r == Err::<Interaction, DecodeError>(DecodeError::UnrecognizedEnvelope),
            Some(SpecInteraction::Ping) => r == Ok::<Interaction, DecodeError>(Interaction::Ping),
            Some(SpecInteraction::ApplicationCommand(nm)) => (r matches Ok(
                Interaction::ApplicationCommand { name },
            ) && name@ == nm),
        },
{
    match parse_envelope(body) {
        None => Err(DecodeError::UnrecognizedEnvelope),
        Some((tag, name)) => match tag {
            None => Err(DecodeError::UnrecognizedEnvelope),
            Some(t) => {
                if t == INTERACTION_PING {
                    Ok(Interaction::Ping)
                } else if t == INTERACTION_APPLICATION_COMMAND {
                    match name {
                        Some(nm) => Ok(Interaction::ApplicationCommand { name: nm }),
                        None => Err(DecodeError::UnrecognizedEnvelope),
                    }
                } else {
                    Err(DecodeError::UnrecognizedEnvelope)
                }
            },
        },
    }
}

/// Discriminant integrity: over any well-formed envelope, decoding succeeds
/// exactly when the `type` discriminant equals a variant's constant and that
/// variant's fields are usable, and the variant selected is the one whose
/// constant was read; any other discriminant fails, whatever the rest of the
/// body holds.
pub proof fn lemma_discriminant_integrity(s: Seq<u8>, f: SpecFields)
    requires
        s_envelope(s) == Some(f),
    ensures
        (f.tag != Some(INTERACTION_PING) && f.tag != Some(INTERACTION_APPLICATION_COMMAND))
            ==> s_decode(s) is None,
        f.tag == Some(INTERACTION_PING) ==> s_decode(s) == Some(SpecInteraction::Ping),
        (f.tag == Some(INTERACTION_APPLICATION_COMMAND) && f.name is Some) ==> s_decode(s)
            == Some(SpecInteraction::ApplicationCommand(f.name.unwrap())),
        (f.tag == Some(INTERACTION_APPLICATION_COMMAND) && f.name is None) ==> s_decode(s) is None,
{
}

/// A body that is not a well-formed envelope object never decodes.
pub proof fn lemma_unrecognized(s: Seq<u8>)
    requires
        s_envelope(s) is None,
    ensures
        s_decode(s) is None,
{
}

} // verus!
