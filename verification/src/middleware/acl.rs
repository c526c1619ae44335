//! Access control by client address: an allow list and a deny list of networks.

use vstd::prelude::*;
use crate::middleware::{Middleware, Stage};
use crate::net::{all_well_formed, in_any, lemma_containment, IpAddress, IpNet};
use crate::session::{MwResult, Rejection, Session, SessionView};

verus! {

/// The access decision for a client address: with a non-empty allow list the
/// address must lie in one of its networks, and it must lie in no network of
/// the deny list.
pub open spec fn acl_verdict(allow: Seq<IpNet>, deny: Seq<IpNet>, ip: IpAddress) -> MwResult {
    if allow.len() > 0 && !in_any(allow, ip) {
        Err(Rejection::Forbidden)
    } else if in_any(deny, ip) {
        Err(Rejection::Forbidden)
    } else {
        Ok(())
    }
}

/// The deny list wins over the allow list, and an empty allow list admits
/// every address that the deny list does not refuse.
pub proof fn lemma_acl_precedence(allow: Seq<IpNet>, deny: Seq<IpNet>, ip: IpAddress)
    ensures
        in_any(deny, ip) ==> acl_verdict(allow, deny, ip) == Err::<(), Rejection>(Rejection::Forbidden),
        allow.len() == 0 ==> (acl_verdict(allow, deny, ip) is Ok <==> !in_any(deny, ip)),
        acl_verdict(allow, deny, ip) is Ok <==> ((allow.len() == 0 || in_any(allow, ip)) && !in_any(deny, ip)),
{
}

/// Networks of one family decide nothing for addresses of the other: with an
/// empty allow list, a client is admitted whenever every denied network is of
/// the other family, and an allow list holding only networks of the other
/// family refuses it.
pub proof fn lemma_acl_other_family(allow: Seq<IpNet>, deny: Seq<IpNet>, ip: IpAddress)
    requires
        forall|i: int| 0 <= i < deny.len() ==> ((#[trigger] deny[i]) is V4 <==> ip is V6),
    ensures
        allow.len() == 0 ==> acl_verdict(allow, deny, ip) == Ok::<(), Rejection>(()),
        (allow.len() > 0 && forall|i: int| 0 <= i < allow.len() ==> ((#[trigger] allow[i]) is V4 <==> ip is V6))
            ==> acl_verdict(allow, deny, ip) == Err::<(), Rejection>(Rejection::Forbidden),
{
    assert forall|i: int| 0 <= i < deny.len() implies !(#[trigger] deny[i]).spec_contains(ip) by {
        lemma_containment(deny[i], ip);
    }
    if allow.len() > 0 && forall|i: int| 0 <= i < allow.len() ==> ((#[trigger] allow[i]) is V4 <==> ip is V6) {
        assert forall|i: int| 0 <= i < allow.len() implies !(#[trigger] allow[i]).spec_contains(ip) by {
            lemma_containment(allow[i], ip);
        }
    }
}

/// Admits or forbids requests by the client's address.
pub struct AclMw {
    allow: Vec<IpNet>,
    deny: Vec<IpNet>,
}

impl AclMw {
    #[verifier::type_invariant]
    spec fn nets_well_formed(self) -> bool {
        all_well_formed(self.allow@) && all_well_formed(self.deny@)
    }

    /// The networks admitted; empty admits every address.
    pub closed spec fn allow_nets(self) -> Seq<IpNet> {
        self.allow@
    }

    /// The networks refused.
    pub closed spec fn deny_nets(self) -> Seq<IpNet> {
        self.deny@
    }

    /// What the middleware does at a stage: only arriving requests are checked,
    /// and the session is never changed.
    pub open spec fn spec_run(self, stage: Stage, s: SessionView) -> (SessionView, MwResult) {
        match stage {
            Stage::Request => (s, acl_verdict(self.allow_nets(), self.deny_nets(), s.client_ip)),
            _ => (s, Ok(())),
        }
    }

    /// An access filter with these allow and deny lists.
    pub fn new(allow: Vec<IpNet>, deny: Vec<IpNet>) -> (res: AclMw)
        requires
            all_well_formed(allow@),
            all_well_formed(deny@),
        ensures
            res.allow_nets() == allow@,
            res.deny_nets() == deny@,
    {
        AclMw { allow, deny }
    }

    /// Whether `ip` lies in some network of `list`.
    fn hit(list: &Vec<IpNet>, ip: &IpAddress) -> (res: bool)
        requires
            all_well_formed(list@),
        ensures
            res == in_any(list@, *ip),
    {
        let mut i: usize = 0;
        while i < list.len()
            invariant
                i <= list.len(),
                all_well_formed(list@),
                forall|j: int| 0 <= j < i ==> !(#[trigger] list@[j]).spec_contains(*ip),
            decreases list.len() - i,
        {
            assert(list@[i as int].well_formed());
            if list[i].contains(ip) {
                return true;
            }
            i = i + 1;
        }
        false
    }

    /// The access decision for a client address.
    pub fn check(&self, ip: &IpAddress) -> (res: MwResult)
        ensures
            res == acl_verdict(self.allow_nets(), self.deny_nets(), *ip),
    {
        proof {
            use_type_invariant(self);
        }
        if self.allow.len() > 0 && !Self::hit(&self.allow, ip) {
            return Err(Rejection::Forbidden);
        }
        if Self::hit(&self.deny, ip) {
            return Err(Rejection::Forbidden);
        }
        Ok(())
    }
}

impl Middleware for AclMw {
    fn on_request(&mut self, s: &mut Session) -> (r: MwResult)
        ensures
            *final(self) == *old(self),
            (final(s)@, r) == old(self).spec_run(Stage::Request, old(s)@),
    {
        self.check(&s.client_ip)
    }


}

} // verus!
