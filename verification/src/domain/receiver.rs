//! Receiver identities, endpoints and the configured receiver set.
use crate::table::entry_at;
use crate::text::{chars_of, owned, text_lt, text_order, TextOrder};
use vstd::prelude::*;

verus! {

/// Where a receiver answered.
#[derive(Debug, Clone, PartialEq, Eq)]
pub struct ReceiverEndpoint {
    pub host: String,
    pub port: u16,
}

/// A receiver as discovery reports it.
#[derive(Debug, Clone, PartialEq, Eq)]
pub struct DiscoveredReceiver {
    pub address: ReceiverEndpoint,
    pub location: Option<String>,
    pub server: Option<String>,
    pub model: Option<String>,
    pub search_target: Option<String>,
    pub unique_service_name: Option<String>,
}

/// A receiver as the application remembers it.
#[derive(Debug, Clone, PartialEq, Eq)]
pub struct ReceiverIdentity {
    pub host: String,
    pub model: Option<String>,
    pub friendly_name: Option<String>,
}

impl ReceiverIdentity {
    /// A receiver known by its host alone.
    pub fn ad_hoc(host: &str) -> (r: Self)
        ensures
            r.host@ == host@,
            r.model is None,
            r.friendly_name is None,
    {
        ReceiverIdentity { host: owned(host), model: None, friendly_name: None }
    }
}

impl DiscoveredReceiver {
    /// The identity a discovered receiver is remembered by.
    pub fn identity(&self) -> (r: ReceiverIdentity)
        ensures
            r.host@ == self.address.host@,
            r.model == self.model,
            r.friendly_name is None,
    {
        ReceiverIdentity { host: self.address.host.clone(), model: self.model.clone(), friendly_name: None }
    }
}

/// The saved receivers by name, in the order of names, and the one in use.
#[derive(Debug, Clone, PartialEq, Eq)]
pub struct ConfiguredReceivers {
    pub current: Option<String>,
    pub receivers: Vec<(String, ReceiverIdentity)>,
}

pub open spec fn receivers_view(v: Seq<(String, ReceiverIdentity)>) -> Seq<(Seq<char>, ReceiverIdentity)> {
    v.map_values(|e: (String, ReceiverIdentity)| (e.0@, e.1))
}

impl ConfiguredReceivers {
    /// The receiver in use, with its name, when it is saved.
    pub fn current(&self) -> (r: Option<(&str, &ReceiverIdentity)>)
        ensures
            match self.current {
                None => r is None,
                Some(name) => match entry_at(receivers_view(self.receivers@), name@) {
                    Some(identity) => r matches Some((n, i)) && n@ == name@ && *i == identity,
                    None => r is None,
                },
            },
    {
        let name = match &self.current {
            None => return None,
            Some(n) => n,
        };
        let wanted = chars_of(name.as_str());
        let ghost t = receivers_view(self.receivers@);
        let mut i: usize = 0;
        while i < self.receivers.len()
            invariant
                i <= self.receivers@.len(),
                t == receivers_view(self.receivers@),
                wanted@ == name@,
                self.current == Some(*name),
                forall|j: int| 0 <= j < i ==> text_lt(#[trigger] t[j].0, name@),
            decreases self.receivers@.len() - i,
        {
            let key = chars_of(self.receivers[i].0.as_str());
            assert(t[i as int].0 == key@);
            match text_order(&key, &wanted) {
                TextOrder::Before => {
                    i += 1;
                },
                TextOrder::Same => {
                    proof {
                        crate::table::lemma_slot(t, name@, i as int);
                    }
                    return Some((name.as_str(), &self.receivers[i].1));
                },
                TextOrder::After => {
                    proof {
                        crate::table::lemma_slot(t, name@, i as int);
                        crate::text::lemma_text_lt_irreflexive(name@);
                    }
                    return None;
                },
            }
        }
        proof {
            crate::table::lemma_slot(t, name@, i as int);
        }
        None
    }
}


/// What a saved receiver set must satisfy: the receiver in use is one of the
/// saved ones, and every saved receiver has a host.
pub open spec fn receivers_valid_outcome(current: Option<Seq<char>>, receivers: Seq<(Seq<char>, ReceiverIdentity)>) -> Result<(), Seq<char>> {
    if current matches Some(name) && entry_at(receivers, name) is None {
        Err("current receiver is not configured"@)
    } else if exists|i: int| 0 <= i < receivers.len() && crate::text::trim((#[trigger] receivers[i]).1.host@).len() == 0 {
        Err("receiver host must not be empty"@)
    } else {
        Ok(())
    }
}

pub open spec fn opt_name(o: Option<String>) -> Option<Seq<char>> {
    match o {
        Some(s) => Some(s@),
        None => None,
    }
}

impl ConfiguredReceivers {
    /// No receiver saved, none in use.
    pub fn default() -> (r: Self)
        ensures
            r.current is None,
            r.receivers@.len() == 0,
    {
        ConfiguredReceivers { current: None, receivers: Vec::new() }
    }

    pub fn validate(&self) -> (r: Result<(), String>)
        ensures
            match receivers_valid_outcome(opt_name(self.current), receivers_view(self.receivers@)) {
                Ok(()) => r is Ok,
                Err(m) => r matches Err(e) && e@ == m,
            },
    {
        if self.current.is_some() && self.current().is_none() {
            return Err(owned("current receiver is not configured"));
        }
        let ghost t = receivers_view(self.receivers@);
        let mut i: usize = 0;
        while i < self.receivers.len()
            invariant
                i <= self.receivers@.len(),
                t == receivers_view(self.receivers@),
                !(opt_name(self.current) matches Some(name) && entry_at(t, name) is None),
                forall|j: int| 0 <= j < i ==> crate::text::trim((#[trigger] t[j]).1.host@).len() > 0,
            decreases self.receivers@.len() - i,
        {
            let host = chars_of(self.receivers[i].1.host.as_str());
            let (a, b) = crate::text::trim_bounds(&host);
            assert(t[i as int].1 == self.receivers@[i as int].1);
            if a == b {
                assert(crate::text::trim(t[i as int].1.host@).len() == 0);
                return Err(owned("receiver host must not be empty"));
            }
            i += 1;
        }
        Ok(())
    }
}

} // verus!
