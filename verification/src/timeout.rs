//! Task and subtask timeouts: a wall-clock duration written "HH:MM:SS",
//! parsed and validated once at the boundary and passed through to the job
//! descriptor verbatim.

use vstd::prelude::*;
use chrono::Timelike;
use crate::text::push_char;
use crate::text::push_two_digits;
use crate::text::two_digits;

verus! {

/// What chrono returns when parsing a string with the "%H:%M:%S" format:
/// the hour, minute and second fields on success, or the rendered parse
/// error message on failure. Parsing depends on the input string alone.
pub uninterp spec fn hms_parse(s: Seq<char>) -> Result<(u8, u8, u8), Seq<char>>;

/// The canonical zero-padded rendering "HH:MM:SS" of a time of day.
pub open spec fn hms_chars(h: nat, m: nat, s: nat) -> Seq<char> {
    two_digits(h) + seq![':'] + two_digits(m) + seq![':'] + two_digits(s)
}

/// Whether `s` is the canonical rendering of some valid time of day.
pub open spec fn is_canonical_hms(s: Seq<char>) -> bool {
    exists|h: u8, m: u8, sec: u8|
        h < 24 && m < 60 && sec < 60 && s == hms_chars(h as nat, m as nat, sec as nat)
}

/// The canonical rendering determines the three fields.
pub proof fn lemma_hms_chars_injective(h1: nat, m1: nat, s1: nat, h2: nat, m2: nat, s2: nat)
    requires
        h1 < 100,
        m1 < 100,
        s1 < 100,
        h2 < 100,
        m2 < 100,
        s2 < 100,
        hms_chars(h1, m1, s1) == hms_chars(h2, m2, s2),
    ensures
        h1 == h2,
        m1 == m2,
        s1 == s2,
{
    let a = hms_chars(h1, m1, s1);
    let b = hms_chars(h2, m2, s2);
    assert(two_digits(h1) =~= two_digits(h2)) by {
        assert(a[0] == b[0] && a[1] == b[1]);
    }
    assert(two_digits(m1) =~= two_digits(m2)) by {
        assert(a[3] == b[3] && a[4] == b[4]);
    }
    assert(two_digits(s1) =~= two_digits(s2)) by {
        assert(a[6] == b[6] && a[7] == b[7]);
    }
    crate::text::lemma_two_digits_injective(h1, h2);
    crate::text::lemma_two_digits_injective(m1, m2);
    crate::text::lemma_two_digits_injective(s1, s2);
}

/// Relies on `chrono::NaiveTime::parse_from_str` with format "%H:%M:%S",
/// and on the `chrono::Timelike` accessors `hour`, `minute` and `second`:
/// parsing is a pure function of the input string; on success the fields
/// are a valid time of day (`second` never reports 60, leap seconds fold
/// into 59); a canonical zero-padded rendering of a valid time parses back
/// to exactly its fields; on failure the message is chrono's rendered
/// parse error.
#[verifier::external_body]
fn parse_hms(value: &str) -> (r: Result<(u8, u8, u8), String>)
    ensures
        r matches Ok(u) ==> hms_parse(value@) matches Ok(t) && t == u && u.0 < 24 && u.1 < 60
            && u.2 < 60,
        r matches Err(e) ==> hms_parse(value@) matches Err(m) && e@ == m,
        is_canonical_hms(value@) ==> r is Ok,
        r matches Ok(u) ==> (is_canonical_hms(value@) ==> value@ == hms_chars(
            u.0 as nat,
            u.1 as nat,
            u.2 as nat,
        )),
{
    match chrono::NaiveTime::parse_from_str(value, "%H:%M:%S") {
        Ok(t) => Ok((t.hour() as u8, t.minute() as u8, t.second() as u8)),
        Err(e) => Err(e.to_string()),
    }
}

/// A backend-enforced timeout, held as a time-of-day duration.
#[derive(Debug, Clone, Copy, PartialEq, Eq, Structural)]
pub struct Timeout {
    pub hours: u8,
    pub minutes: u8,
    pub seconds: u8,
}

impl Timeout {
    /// A valid time of day.
    pub open spec fn wf(&self) -> bool {
        self.hours < 24 && self.minutes < 60 && self.seconds < 60
    }

    /// The canonical "HH:MM:SS" rendering of this timeout.
    pub open spec fn chars(&self) -> Seq<char> {
        hms_chars(self.hours as nat, self.minutes as nat, self.seconds as nat)
    }

    /// Builds a timeout from its fields.
    pub fn from_hms(hours: u8, minutes: u8, seconds: u8) -> (t: Timeout)
        requires
            hours < 24,
            minutes < 60,
            seconds < 60,
        ensures
            t == (Timeout { hours, minutes, seconds }),
            t.wf(),
    {
        Timeout { hours, minutes, seconds }
    }

    /// Parses a timeout from an "HH:MM:SS" string; the all-zero duration is
    /// rejected, and a parse failure reports chrono's message with the
    /// offending input.
    pub fn from_str(value: &str) -> (r: Result<Timeout, String>)
        ensures
            hms_parse(value@) matches Ok(t) ==> (t != (0u8, 0u8, 0u8) ==> (r matches Ok(to)
                && to == (Timeout { hours: t.0, minutes: t.1, seconds: t.2 }) && to.wf())),
            hms_parse(value@) == Ok::<(u8, u8, u8), Seq<char>>((0u8, 0u8, 0u8)) ==> (r matches Err(
                e,
            ) && e@ == "Timeout of '00:00:00' is not allowed"@),
            hms_parse(value@) matches Err(m) ==> (r matches Err(e) && e@
                == "Failed parsing Timeout from '"@ + value@ + "' with error: "@ + m),
            forall|h: u8, m: u8, s: u8|
                h < 24 && m < 60 && s < 60 && !(h == 0 && m == 0 && s == 0) && value@ == hms_chars(
                    h as nat,
                    m as nat,
                    s as nat,
                ) ==> r == Ok::<Timeout, String>(Timeout { hours: h, minutes: m, seconds: s }),
            value@ == hms_chars(0, 0, 0) ==> (r matches Err(e) && e@
                == "Timeout of '00:00:00' is not allowed"@),
    {
        match parse_hms(value) {
            Ok((h, m, s)) => {
                proof {
                    assert forall|h0: u8, m0: u8, s0: u8|
                        h0 < 24 && m0 < 60 && s0 < 60 && value@ == hms_chars(
                            h0 as nat,
                            m0 as nat,
                            s0 as nat,
                        ) implies h0 == h && m0 == m && s0 == s by {
                        assert(is_canonical_hms(value@)) by {
                            assert(h0 < 24 && m0 < 60 && s0 < 60 && value@ == hms_chars(
                                h0 as nat,
                                m0 as nat,
                                s0 as nat,
                            ));
                        }
                        lemma_hms_chars_injective(
                            h as nat,
                            m as nat,
                            s as nat,
                            h0 as nat,
                            m0 as nat,
                            s0 as nat,
                        );
                    }
                }
                if h == 0 && m == 0 && s == 0 {
                    Err(String::from_str("Timeout of '00:00:00' is not allowed"))
                } else {
                    Ok(Timeout { hours: h, minutes: m, seconds: s })
                }
            },
            Err(e) => {
                proof {
                    assert forall|h0: u8, m0: u8, s0: u8|
                        h0 < 24 && m0 < 60 && s0 < 60 && value@ == hms_chars(
                            h0 as nat,
                            m0 as nat,
                            s0 as nat,
                        ) implies false by {
                        assert(is_canonical_hms(value@)) by {
                            assert(h0 < 24 && m0 < 60 && s0 < 60 && value@ == hms_chars(
                                h0 as nat,
                                m0 as nat,
                                s0 as nat,
                            ));
                        }
                    }
                }
                let mut msg: String = String::from_str("Failed parsing Timeout from '");
                msg.append(value);
                msg.append("' with error: ");
                msg.append(e.as_str());
                proof {
                    assert(msg@ =~= "Failed parsing Timeout from '"@ + value@
                        + "' with error: "@ + e@);
                }
                Err(msg)
            },
        }
    }

    /// Renders the timeout as zero-padded "HH:MM:SS".
    pub fn to_string(&self) -> (s: String)
        requires
            self.wf(),
        ensures
            s@ == self.chars(),
    {
        let mut s: String = String::new();
        push_two_digits(&mut s, self.hours as u64);
        push_char(&mut s, ':');
        push_two_digits(&mut s, self.minutes as u64);
        push_char(&mut s, ':');
        push_two_digits(&mut s, self.seconds as u64);
        proof {
            assert(s@ =~= self.chars());
        }
        s
    }
}

} // verus!
