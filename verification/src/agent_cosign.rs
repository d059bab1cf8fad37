//! An agent's co-sign coordinator: whether its quorum signs across machines, and the one signer that
//! all of its sign sites then share.
//!
//! What a hub and a signer are is the caller's.
use vstd::prelude::*;
use vstd::string::StringExecFns;

use crate::relay_routing::NostrRelayConn;
use crate::text;

verus! {

/// How an agent signs.
pub enum Engagement {
    /// On this machine.
    Local,
    /// On this machine, although its keystore is laid out for several: signing across machines is
    /// switched off.
    Inert,
    /// Across machines, over this connection.
    Distributed(NostrRelayConn),
}

/// A keystore whose holders are elsewhere, and no relay to reach them by.
#[derive(Debug)]
pub struct NoCosignRelay {
    pub keystore_dir: String,
}

impl NoCosignRelay {
    /// The error's text.
    pub fn message(&self) -> (r: String)
        ensures
            r@ == "distributed FROST keystore "@ + self.keystore_dir@
                + " needs at least one co-sign relay to reach the remote holders, but the relay set is empty (fail closed)"@,
    {
        let mut s = "distributed FROST keystore ".to_owned();
        s.append(self.keystore_dir.as_str());
        s.append(
            " needs at least one co-sign relay to reach the remote holders, but the relay set is empty (fail closed)",
        );
        s
    }
}

/// Whether signing across machines is engaged: there is a keystore, it is laid out for it, and it is
/// switched on.
pub open spec fn engaged(has_keystore: bool, distributed: bool, enabled: bool) -> bool {
    has_keystore && distributed && enabled
}

/// Decide how an agent signs. `distributed` says whether its keystore is laid out for several
/// machines, and `enabled` whether signing across them is switched on; without both it signs on this
/// machine.
pub fn engage(
    keystore_dir: &Option<String>,
    distributed: bool,
    enabled: bool,
    coordinator: &str,
    relays: Vec<String>,
) -> (r: Result<Engagement, NoCosignRelay>)
    ensures
        match r {
            Ok(Engagement::Distributed(conn)) => {
                &&& engaged(keystore_dir is Some, distributed, enabled)
                &&& relays@.len() > 0
                &&& conn.own_key() == coordinator@
                &&& conn.reach() == text::views(relays@)
                &&& conn.lately().len() == 0
            },
            Ok(Engagement::Inert) => keystore_dir is Some && distributed && !enabled,
            Ok(Engagement::Local) => keystore_dir is None || !distributed,
            Err(e) => {
                &&& engaged(keystore_dir is Some, distributed, enabled)
                &&& relays@.len() == 0
                &&& e.keystore_dir@ == keystore_dir->0@
            },
        },
{
    match keystore_dir {
        Some(dir) => {
            if !distributed {
                return Ok(Engagement::Local);
            }
            if !enabled {
                return Ok(Engagement::Inert);
            }
            match NostrRelayConn::new(coordinator.to_owned(), relays) {
                Ok(conn) => Ok(Engagement::Distributed(conn)),
                Err(_) => Err(NoCosignRelay { keystore_dir: dir.clone() }),
            }
        },
        None => Ok(Engagement::Local),
    }
}

/// Where the next signer comes from.
#[derive(Debug, Clone, Copy, PartialEq, Eq, Structural)]
pub enum SignerStep {
    /// The shared one, which is there.
    Shared,
    /// The shared one, which is to be loaded over the hub and kept.
    LoadShared,
    /// A fresh one, loaded on this machine.
    LoadLocal,
}

/// There is no keystore to load from.
#[derive(Debug, Clone, Copy, PartialEq, Eq, Structural)]
pub struct NoKeystore;

/// An agent's co-sign coordinator: its keystore, its hub if it signs across machines, and the shared
/// signer once there is one.
pub struct AgentCosign<H, S> {
    keystore_dir: Option<String>,
    hub: Option<H>,
    signer: Option<S>,
}

/// Where the next signer comes from.
pub open spec fn signer_step(has_keystore: bool, has_hub: bool, has_signer: bool) -> Result<
    SignerStep,
    NoKeystore,
> {
    if !has_keystore {
        Err(NoKeystore)
    } else if !has_hub {
        Ok(SignerStep::LoadLocal)
    } else if has_signer {
        Ok(SignerStep::Shared)
    } else {
        Ok(SignerStep::LoadShared)
    }
}

impl<H, S> AgentCosign<H, S> {
    /// The keystore.
    pub closed spec fn keystore(&self) -> Option<String> {
        self.keystore_dir
    }

    /// The hub.
    pub closed spec fn shared_hub(&self) -> Option<H> {
        self.hub
    }

    /// The shared signer.
    pub closed spec fn shared_signer(&self) -> Option<S> {
        self.signer
    }

    /// The coordinator of a keystore, with a hub if it signs across machines.
    pub fn build(keystore_dir: Option<String>, hub: Option<H>) -> (r: Self)
        ensures
            r.keystore() == keystore_dir,
            r.shared_hub() == hub,
            r.shared_signer() is None,
    {
        AgentCosign { keystore_dir, hub, signer: None }
    }

    /// The coordinator of an agent without a keystore.
    pub fn none() -> (r: Self)
        ensures
            r.keystore() is None,
            r.shared_hub() is None,
            r.shared_signer() is None,
    {
        AgentCosign { keystore_dir: None, hub: None, signer: None }
    }

    /// Whether the agent signs across machines.
    pub fn is_distributed(&self) -> (r: bool)
        ensures
            r == (self.shared_hub() is Some),
    {
        self.hub.is_some()
    }

    /// The hub.
    pub fn hub(&self) -> (r: Option<&H>)
        ensures
            r is Some <==> self.shared_hub() is Some,
            r matches Some(h) ==> self.shared_hub() == Some(*h),
    {
        match &self.hub {
            Some(h) => Some(h),
            None => None,
        }
    }

    /// Where the next signer comes from.
    pub fn load_signer(&self) -> (r: Result<SignerStep, NoKeystore>)
        ensures
            r == signer_step(
                self.keystore() is Some,
                self.shared_hub() is Some,
                self.shared_signer() is Some,
            ),
    {
        if self.keystore_dir.is_none() {
            return Err(NoKeystore);
        }
        if self.hub.is_none() {
            return Ok(SignerStep::LoadLocal);
        }
        if self.signer.is_some() {
            Ok(SignerStep::Shared)
        } else {
            Ok(SignerStep::LoadShared)
        }
    }

    /// The shared signer.
    pub fn signer(&self) -> (r: Option<&S>)
        ensures
            r is Some <==> self.shared_signer() is Some,
            r matches Some(s) ==> self.shared_signer() == Some(*s),
    {
        match &self.signer {
            Some(s) => Some(s),
            None => None,
        }
    }

    /// Keep a loaded signer as the shared one. The first one stays, and only an agent that signs
    /// across machines shares one.
    pub fn keep_signer(&mut self, signer: S)
        ensures
            final(self).keystore() == old(self).keystore(),
            final(self).shared_hub() == old(self).shared_hub(),
            final(self).shared_signer() == if old(self).shared_hub() is Some
                && old(self).shared_signer() is None {
                Some(signer)
            } else {
                old(self).shared_signer()
            },
    {
        if self.hub.is_some() && self.signer.is_none() {
            self.signer = Some(signer);
        }
    }

    /// Where key agreements run: over the hub, or on this machine.
    pub fn load_ecdh(&self) -> (r: Result<bool, NoKeystore>)
        ensures
            r == if self.keystore() is Some {
                Ok::<bool, NoKeystore>(self.shared_hub() is Some)
            } else {
                Err(NoKeystore)
            },
    {
        if self.keystore_dir.is_none() {
            return Err(NoKeystore);
        }
        Ok(self.hub.is_some())
    }
}

/// A keystore that is laid out for several machines is inert by itself: without the switch nothing
/// is engaged, and the switch alone engages nothing either.
pub proof fn layout_alone_engages_nothing(has_keystore: bool, distributed: bool, enabled: bool)
    ensures
        !engaged(has_keystore, distributed, false),
        !engaged(has_keystore, false, enabled),
        !engaged(false, distributed, enabled),
{
}

/// There is one shared signer: once it is kept, every sign site gets it, and no other one is loaded.
/// An agent that signs on one machine loads a fresh one each time.
pub proof fn sign_sites_share_one_signer<H, S>(
    before: AgentCosign<H, S>,
    after: AgentCosign<H, S>,
    signer: S,
)
    requires
        before.keystore() is Some,
        after.keystore() == before.keystore(),
        after.shared_hub() == before.shared_hub(),
        after.shared_signer() == if before.shared_hub() is Some && before.shared_signer() is None {
            Some(signer)
        } else {
            before.shared_signer()
        },
    ensures
        before.shared_signer() is Some ==> after.shared_signer() == before.shared_signer(),
        before.shared_hub() is Some ==> signer_step(true, true, after.shared_signer() is Some)
            == Ok::<SignerStep, NoKeystore>(SignerStep::Shared),
        before.shared_hub() is None ==> signer_step(true, false, after.shared_signer() is Some)
            == Ok::<SignerStep, NoKeystore>(SignerStep::LoadLocal),
{
}

/// When an agent signs across machines: where it has a keystore, laid out for several machines, the
/// switch is on, and there is a relay; it then signs under the coordinator's key over exactly the given
/// relays. Without a relay it fails closed; in every other case it signs on this machine.
pub proof fn signing_across_machines_needs_everything(
    keystore_dir: Option<String>,
    distributed: bool,
    enabled: bool,
    coordinator: &str,
    relays: Vec<String>,
    r: Result<Engagement, NoCosignRelay>,
)
    requires
        call_ensures(engage, (&keystore_dir, distributed, enabled, coordinator, relays), r),
    ensures
        ({
            let wanted = keystore_dir is Some && distributed && enabled;
            &&& wanted && relays@.len() > 0 <==> (r matches Ok(Engagement::Distributed(_)))
            &&& wanted && relays@.len() == 0 <==> r is Err
            &&& keystore_dir is Some && distributed && !enabled <==> (r matches Ok(
                Engagement::Inert,
            ))
            &&& keystore_dir is None || !distributed <==> (r matches Ok(Engagement::Local))
        }),
        r matches Ok(Engagement::Distributed(conn)) ==> conn.own_key() == coordinator@
            && conn.reach() == text::views(relays@),
        r matches Err(e) ==> e.keystore_dir@ == keystore_dir->0@,
{
}

/// One signer for all sign sites: the first signer that is kept over a hub is the one that everybody
/// gets from then on, whatever is kept later; without a hub none is shared, and without a keystore none
/// is loaded.
pub proof fn first_kept_signer_is_everybodys<H, S>(
    keystore_dir: Option<String>,
    hub: Option<H>,
    first: &mut AgentCosign<H, S>,
    second: &mut AgentCosign<H, S>,
    signer: S,
    other: S,
    before: Result<SignerStep, NoKeystore>,
    after: Result<SignerStep, NoKeystore>,
    shared: Option<&S>,
    across: bool,
    ecdh: Result<bool, NoKeystore>,
)
    requires
        call_ensures(AgentCosign::<H, S>::build, (keystore_dir, hub), *old(first)),
        call_ensures(AgentCosign::<H, S>::load_signer, (&*old(first),), before),
        call_ensures(AgentCosign::<H, S>::keep_signer, (first, signer), ()),
        *final(first) == *old(second),
        call_ensures(AgentCosign::<H, S>::keep_signer, (second, other), ()),
        call_ensures(AgentCosign::<H, S>::load_signer, (&*final(second),), after),
        call_ensures(AgentCosign::<H, S>::signer, (&*final(second),), shared),
        call_ensures(AgentCosign::<H, S>::is_distributed, (&*final(second),), across),
        call_ensures(AgentCosign::<H, S>::load_ecdh, (&*final(second),), ecdh),
    ensures
        keystore_dir is None ==> before is Err && after is Err && ecdh is Err,
        across <==> hub is Some,
        hub is Some ==> shared is Some && *(shared->0) == signer,
        hub is None ==> shared is None,
        keystore_dir is Some && hub is Some ==> before == Ok::<SignerStep, NoKeystore>(
            SignerStep::LoadShared,
        ) && after == Ok::<SignerStep, NoKeystore>(SignerStep::Shared) && ecdh == Ok::<
            bool,
            NoKeystore,
        >(true),
        keystore_dir is Some && hub is None ==> before == Ok::<SignerStep, NoKeystore>(
            SignerStep::LoadLocal,
        ) && after == Ok::<SignerStep, NoKeystore>(SignerStep::LoadLocal) && ecdh == Ok::<
            bool,
            NoKeystore,
        >(false),
{
}

/// An agent without a keystore has nothing to sign with, neither here nor across machines, and keeps
/// no signer.
pub proof fn agent_without_a_keystore_signs_nothing<H, S>(
    cosign: AgentCosign<H, S>,
    distributed: bool,
    step: Result<SignerStep, NoKeystore>,
    agreement: Result<bool, NoKeystore>,
)
    requires
        call_ensures(AgentCosign::<H, S>::none, (), cosign),
        call_ensures(AgentCosign::<H, S>::is_distributed, (&cosign,), distributed),
        call_ensures(AgentCosign::<H, S>::load_signer, (&cosign,), step),
        call_ensures(AgentCosign::<H, S>::load_ecdh, (&cosign,), agreement),
    ensures
        !distributed,
        step is Err,
        agreement is Err,
        cosign.shared_signer() is None,
{
}

} // verus!
