//! Log text composition.
//!
//! The logging sink itself (files, directories, the background writer) is
//! outside the verified core; what is verified here is the exact text the
//! sink is handed: timestamped file names, configuration dumps, and
//! framed entries.

use vstd::prelude::*;
use vstd::string::StringExecFns;

use crate::clock::formatted_timestamp;

verus! {

/// The current instant as a filesystem-safe stamp,
/// `yyyy-mm-dd_hh-mm-ss` (hyphens instead of colons).
pub fn generate_formatted_timestamp() -> (r: String)
    ensures
        r@.len() >= 19,
{
    formatted_timestamp()
}

/// A log file name `<prefix>_<timestamp>.<suffix>`, stamped with the
/// current instant.
pub fn generate_log_filename(prefix: &str, suffix: &str) -> (r: String)
    ensures
        exists|stamp: Seq<char>|
            stamp.len() >= 19 && r@ == prefix@ + "_"@ + stamp + "."@ + suffix@,
{
    let stamp = generate_formatted_timestamp();
    let mut s: String = prefix.to_owned();
    s.append("_");
    s.append(stamp.as_str());
    s.append(".");
    s.append(suffix);
    proof {
        let w = stamp@;
        assert(s@ == prefix@ + "_"@ + w + "."@ + suffix@);
    }
    s
}

/// The startup configuration dump: the configuration file's path followed
/// by its full contents.
pub fn log_config(config_path: &str, config_yaml: &str) -> (r: String)
    ensures
        r@ == "Signal Processor Config Loaded:\nConfig Path: "@ + config_path@
            + "\n\nFull Configuration:\n"@ + config_yaml@,
{
    let mut s: String = "Signal Processor Config Loaded:\nConfig Path: ".to_owned();
    s.append(config_path);
    s.append("\n\nFull Configuration:\n");
    s.append(config_yaml);
    s
}

/// A log entry framed by a detailed header line and a closing rule.
pub fn log_with_header(header: &str, message: &str) -> (r: String)
    ensures
        r@ == "===== "@ + header@ + " =====\n"@ + message@ + "\n===================="@,
{
    let mut s: String = "===== ".to_owned();
    s.append(header);
    s.append(" =====\n");
    s.append(message);
    s.append("\n====================");
    s
}

} // verus!
