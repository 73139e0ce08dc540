//! The shared device state: the device name, the current broker
//! endpoint and the bounded status history, together with the worker
//! logic that feeds it.

use crate::broker::Broker;
use crate::history::{push_model, StatusHistory};
use vstd::prelude::*;
use vstd::utf8::{decode_utf8, valid_utf8};

verus! {

/// Relies on String::from_utf8: decodes bytes as UTF-8 text, and
/// succeeds exactly on a valid encoding.
#[verifier::external_body]
fn utf8_to_string(bytes: Vec<u8>) -> (r: Option<String>)
    ensures
        r is Some <==> valid_utf8(bytes@),
        r matches Some(s) ==> s@ == decode_utf8(bytes@),
{
    String::from_utf8(bytes).ok()
}

/// The state block every worker and request handler reads or writes.
pub struct DeviceState {
    device_name: String,
    broker: Broker,
    history: StatusHistory,
}

impl DeviceState {
    pub closed spec fn device_name_spec(&self) -> Seq<char> {
        self.device_name@
    }

    pub closed spec fn broker_spec(&self) -> Broker {
        self.broker
    }

    pub closed spec fn history_spec(&self) -> Seq<Seq<char>> {
        self.history@
    }

    /// The stored broker passed validation, and the history is bounded.
    pub open spec fn wf(&self) -> bool {
        self.broker_spec().wf() && self.history_spec().len() <= 5
    }

    /// The state at service start: the configured name and broker, no
    /// status seen yet.
    pub fn new(device_name: String, broker: Broker) -> (st: DeviceState)
        requires
            broker.wf(),
        ensures
            st.wf(),
            st.device_name_spec() == device_name@,
            st.broker_spec() == broker,
            st.history_spec() == Seq::<Seq<char>>::empty(),
    {
        DeviceState { device_name, broker, history: StatusHistory::new() }
    }

    /// Replace the device name wholesale.
    pub fn replace_device_name(&mut self, name: String)
        requires
            old(self).wf(),
        ensures
            final(self).wf(),
            final(self).device_name_spec() == name@,
            final(self).broker_spec() == old(self).broker_spec(),
            final(self).history_spec() == old(self).history_spec(),
    {
        self.device_name = name;
    }

    /// Replace the broker wholesale; the value passed validation when it
    /// was built, so none happens here.
    pub fn replace_broker(&mut self, broker: Broker)
        requires
            old(self).wf(),
            broker.wf(),
        ensures
            final(self).wf(),
            final(self).broker_spec() == broker,
            final(self).device_name_spec() == old(self).device_name_spec(),
            final(self).history_spec() == old(self).history_spec(),
    {
        self.broker = broker;
    }

    /// Append a status snapshot, evicting the oldest once five are held.
    pub fn push_status(&mut self, s: String)
        requires
            old(self).wf(),
        ensures
            final(self).wf(),
            final(self).history_spec() == push_model(old(self).history_spec(), s@),
            final(self).device_name_spec() == old(self).device_name_spec(),
            final(self).broker_spec() == old(self).broker_spec(),
    {
        self.history.push(s);
    }

    pub fn current_device_name(&self) -> (n: &String)
        ensures
            n@ == self.device_name_spec(),
    {
        &self.device_name
    }

    pub fn current_broker(&self) -> (b: &Broker)
        ensures
            *b == self.broker_spec(),
    {
        &self.broker
    }

    pub fn current_status_snapshot(&self) -> (h: &StatusHistory)
        ensures
            h@ == self.history_spec(),
    {
        &self.history
    }

    /// The last five status snapshots, oldest first, each in brackets,
    /// each preceded by a space.
    pub fn power_status_text(&self) -> (s: String)
        ensures
            s@ == power_status_render(self.history_spec()),
    {
        proof {
            reveal_strlit(" [");
            reveal_strlit("]");
        }
        let n = self.history.len();
        let mut s = String::new();
        let mut i: usize = 0;
        proof {
            assert(power_status_render(self.history_spec().subrange(0, 0)) =~= Seq::<
                char,
            >::empty());
        }
        while i < n
            invariant
                n == self.history_spec().len(),
                i <= n,
                s@ == power_status_render(self.history_spec().subrange(0, i as int)),
            decreases n - i,
        {
            s.append(" [");
            s.append(self.history.entry(i).as_str());
            s.append("]");
            proof {
                let h = self.history_spec();
                assert(h.subrange(0, i + 1).drop_last() =~= h.subrange(0, i as int));
                assert(h.subrange(0, i + 1).last() == h[i as int]);
                assert(s@ =~= power_status_render(h.subrange(0, i + 1)));
            }
            i = i + 1;
        }
        proof {
            assert(self.history_spec().subrange(0, n as int) =~= self.history_spec());
        }
        s
    }
}

/// The bracketed concatenation of the stored snapshots, oldest first.
pub open spec fn power_status_render(h: Seq<Seq<char>>) -> Seq<char>
    decreases h.len(),
{
    if h.len() == 0 {
        Seq::empty()
    } else {
        power_status_render(h.drop_last()) + " ["@ + h.last() + "]"@
    }
}

/// One tick of the status ingest worker: a drained status message is
/// decoded and stored, a message that is not UTF-8 is dropped, and a
/// drained name change replaces the device name. An empty poll changes
/// nothing.
pub fn ingest_tick(state: &mut DeviceState, raw: Option<Vec<u8>>, new_name: Option<String>)
    requires
        old(state).wf(),
    ensures
        final(state).wf(),
        final(state).history_spec() == match raw {
            Some(m) => if valid_utf8(m@) {
                push_model(old(state).history_spec(), decode_utf8(m@))
            } else {
                old(state).history_spec()
            },
            None => old(state).history_spec(),
        },
        final(state).device_name_spec() == match new_name {
            Some(n) => n@,
            None => old(state).device_name_spec(),
        },
        final(state).broker_spec() == old(state).broker_spec(),
{
    match raw {
        Some(bytes) => {
            match utf8_to_string(bytes) {
                Some(text) => state.push_status(text),
                None => (),
            }
        },
        None => (),
    }
    match new_name {
        Some(name) => state.replace_device_name(name),
        None => (),
    }
}

} // verus!
