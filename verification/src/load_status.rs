//! Where loading an instrument stands, and the status line the editor shows for it.

use vstd::prelude::*;
use crate::sfz_numbers::{decimal_text, push_decimal};
use crate::text::{chars_of, push_all, string_of};

verus! {

/// A stage of loading an instrument.
#[derive(Debug, Clone, PartialEq, Eq)]
pub enum SamplerLoadStatus {
    Empty,
    Parsing,
    LoadingSamples { loaded: usize, total: usize },
    Resampling,
    Ready { name: String, sample_count: usize, zone_count: usize },
    Error(String),
}

/// The status line for a loading stage.
pub open spec fn status_text(s: SamplerLoadStatus) -> Seq<char> {
    match s {
        SamplerLoadStatus::Empty => "No instrument loaded"@,
        SamplerLoadStatus::Parsing => "Parsing instrument"@,
        SamplerLoadStatus::LoadingSamples { loaded, total } => "Loading samples "@ + decimal_text(
            loaded as nat,
        ) + "/"@ + decimal_text(total as nat),
        SamplerLoadStatus::Resampling => "Resampling samples"@,
        SamplerLoadStatus::Ready { name, sample_count, zone_count } => "Ready: "@ + name@ + " ("@
            + decimal_text(sample_count as nat) + " samples, "@ + decimal_text(zone_count as nat)
            + " zones)"@,
        SamplerLoadStatus::Error(message) => "Error: "@ + message@,
    }
}

fn push_str(out: &mut Vec<char>, s: &str)
    ensures
        final(out)@ == old(out)@ + s@,
{
    let c = chars_of(s);
    push_all(out, c.as_slice());
}

/// The status line the editor shows for a loading stage, as `status_text` states.
pub fn load_status_message(status: &SamplerLoadStatus) -> (m: String)
    ensures
        m@ == status_text(*status),
{
    let mut out: Vec<char> = Vec::new();
    match status {
        SamplerLoadStatus::Empty => push_str(&mut out, "No instrument loaded"),
        SamplerLoadStatus::Parsing => push_str(&mut out, "Parsing instrument"),
        SamplerLoadStatus::LoadingSamples { loaded, total } => {
            push_str(&mut out, "Loading samples ");
            push_decimal(&mut out, *loaded as u64);
            push_str(&mut out, "/");
            push_decimal(&mut out, *total as u64);
        },
        SamplerLoadStatus::Resampling => push_str(&mut out, "Resampling samples"),
        SamplerLoadStatus::Ready { name, sample_count, zone_count } => {
            push_str(&mut out, "Ready: ");
            push_str(&mut out, name.as_str());
            push_str(&mut out, " (");
            push_decimal(&mut out, *sample_count as u64);
            push_str(&mut out, " samples, ");
            push_decimal(&mut out, *zone_count as u64);
            push_str(&mut out, " zones)");
        },
        SamplerLoadStatus::Error(message) => {
            push_str(&mut out, "Error: ");
            push_str(&mut out, message.as_str());
        },
    }
    assert(out@ =~= status_text(*status));
    string_of(out.as_slice())
}

} // verus!
