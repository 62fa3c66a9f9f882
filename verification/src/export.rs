//! Export of logged data: the header row of the CSV file.
//!
//! The file is written by the caller; the header is `time` followed by the
//! name of every logged signal, and there must be at least one signal.

use crate::cli::parser::views;
use vstd::prelude::*;

verus! {

/// An error while exporting logged data.
#[derive(Debug)]
pub struct ExportError(pub String);

pub const NO_SIGNALS_TO_EXPORT: &'static str = "No signals to export.";

/// The header row of the CSV export: `time`, then the signal names in
/// order; an error when there are no signals.
pub fn export_header(signal_names: &Vec<String>) -> (r: Result<Vec<String>, ExportError>)
    ensures
        match r {
            Ok(header) => signal_names.len() > 0 && views(header@) == seq!["time"@] + views(
                signal_names@,
            ),
            Err(e) => signal_names.len() == 0 && e.0@ == NO_SIGNALS_TO_EXPORT@,
        },
{
    if signal_names.len() == 0 {
        return Err(ExportError(String::from_str(NO_SIGNALS_TO_EXPORT)));
    }
    let mut header: Vec<String> = Vec::new();
    header.push(String::from_str("time"));
    let mut i: usize = 0;
    while i < signal_names.len()
        invariant
            i <= signal_names.len(),
            views(header@) == seq!["time"@] + views(signal_names@).take(i as int),
        decreases signal_names.len() - i,
    {
        let ghost prev = header@;
        header.push(signal_names[i].clone());
        assert(views(header@) =~= views(prev).push(signal_names@[i as int]@));
        assert(views(signal_names@).take(i + 1) =~= views(signal_names@).take(i as int).push(
            signal_names@[i as int]@,
        ));
        i += 1;
    }
    assert(views(signal_names@).take(signal_names.len() as int) =~= views(signal_names@));
    Ok(header)
}

} // verus!
