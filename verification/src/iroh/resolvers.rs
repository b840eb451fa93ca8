//! Which nameservers iroh's resolver was handed, as the endpoint build logs it
//! once: without it, nothing tells a system nameserver from the public fallback.

use vstd::prelude::*;
use vstd::string::StrSliceExecFns;

use crate::text::joined;

verus! {

/// What the endpoint build says of the system's nameservers.
#[derive(Clone, Debug)]
pub enum DnsNotice {
    /// The system configuration lists no nameserver: public DNS it is.
    NoNameserver,
    /// The nameservers the system configuration lists.
    FromSystem(String),
    /// No system configuration could be read, for this reason: public DNS it is.
    NoSystemConfiguration(String),
}

/// Texts joined by `", "`.
pub open spec fn listed(names: Seq<Seq<char>>) -> Seq<char>
    decreases names.len(),
{
    if names.len() == 0 {
        Seq::empty()
    } else if names.len() == 1 {
        names[0]
    } else {
        listed(names.drop_last()) + ", "@ + names.last()
    }
}

pub open spec fn texts(names: Seq<String>) -> Seq<Seq<char>> {
    names.map_values(|name: String| name@)
}

/// The notice for what reading the system configuration gave: the addresses of
/// the nameservers it lists, or why it could not be read.
pub fn log_system(read: Result<Vec<String>, String>) -> (res: DnsNotice)
    ensures
        match read {
            Ok(names) => if listed(texts(names@)).len() == 0 {
                res is NoNameserver
            } else {
                res matches DnsNotice::FromSystem(text) && text@ == listed(texts(names@))
            },
            Err(reason) => res matches DnsNotice::NoSystemConfiguration(text) && text@ == reason@,
        },
{
    match read {
        Err(reason) => DnsNotice::NoSystemConfiguration(reason),
        Ok(names) => {
            let mut text = String::new();
            let mut i: usize = 0;
            while i < names.len()
                invariant
                    0 <= i <= names@.len(),
                    text@ == listed(texts(names@.take(i as int))),
                decreases names@.len() - i,
            {
                proof {
                    assert(texts(names@.take(i as int + 1)).drop_last() =~= texts(names@.take(i as int)));
                }
                if i == 0 {
                    text = joined(text.as_str(), names[i].as_str());
                    assert(texts(names@.take(1)) =~= seq![names@[0]@]);
                } else {
                    text = joined(&joined(text.as_str(), ", "), names[i].as_str());
                }
                i += 1;
            }
            assert(names@.take(names@.len() as int) =~= names@);
            if text.as_str().unicode_len() == 0 {
                DnsNotice::NoNameserver
            } else {
                DnsNotice::FromSystem(text)
            }
        },
    }
}

} // verus!
