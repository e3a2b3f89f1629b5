//! How the network is: which protocols are online, and how the carriers answer.
use vstd::prelude::*;
use crate::client::Args;

verus! {

/// The bit that reports IPv4 as online unasked.
pub const ONLINE_IPV4: u8 = 1;

/// The bit that reports IPv6 as online unasked.
pub const ONLINE_IPV6: u8 = 2;

/// The protocols that the options report as online unasked.
pub open spec fn forced(online: u8) -> (bool, bool) {
    (online & ONLINE_IPV4 != 0, online & ONLINE_IPV6 != 0)
}

/// One of the protocols is reported as online unasked.
pub open spec fn is_forced(online: u8) -> bool {
    forced(online).0 || forced(online).1
}

/// The addresses to probe, for IPv4 and for IPv6, or `None` where the options leave
/// nothing to find out.
pub fn probe_addresses(args: &Args) -> (r: Option<(String, String)>)
    ensures
        (match r {
            Some((v4, v6)) => !is_forced(args.online) && v4@ == args.ipv4_address@ && v6@
                == args.ipv6_address@,
            None => is_forced(args.online),
        }),
{
    if (args.online & ONLINE_IPV4) != 0 || (args.online & ONLINE_IPV6) != 0 {
        None
    } else {
        Some((args.ipv4_address.clone(), args.ipv6_address.clone()))
    }
}

/// Which protocols are online: those that the options name, or, where they name
/// none, those whose probe was answered.
pub fn get_network(args: &Args, ipv4_answers: bool, ipv6_answers: bool) -> (r: (bool, bool))
    ensures
        r == (if is_forced(args.online) {
            forced(args.online)
        } else {
            (ipv4_answers, ipv6_answers)
        }),
{
    let network: (bool, bool) = (
        (args.online & ONLINE_IPV4) != 0,
        (args.online & ONLINE_IPV6) != 0,
    );
    if network.0 || network.1 {
        network
    } else {
        (ipv4_answers, ipv6_answers)
    }
}

/// How a carrier answers.
#[derive(Debug)]
pub struct PingData {
    pub probe_uri: String,
    /// The probes lost, in percent.
    pub lost_rate: u32,
    /// How long the last probe took, in milliseconds.
    pub ping_time: u32,
}

impl Default for PingData {
    /// A carrier of which nothing is known, not even where it is reached.
    fn default() -> (r: Self)
        ensures
            unprobed(r, Seq::empty()),
    {
        PingData { probe_uri: String::new(), lost_rate: 0, ping_time: 0 }
    }
}

/// How a probe ended.
#[derive(Clone, Copy, Debug, PartialEq, Eq, Structural)]
pub enum Probe {
    Connected,
    Refused,
    Failed,
}

/// A probe that is answered, be it by a refusal, is not lost.
pub open spec fn answered(p: Probe) -> bool {
    p != Probe::Failed
}

/// The number of probes lost.
pub open spec fn losses(s: Seq<bool>) -> nat
    decreases s.len(),
{
    if s.len() == 0 {
        0
    } else {
        losses(s.drop_last()) + if s.last() {
            0nat
        } else {
            1nat
        }
    }
}

/// The probes after one more: the oldest falls out once there are more than a
/// hundred.
pub open spec fn slid(s: Seq<bool>, ok: bool) -> Seq<bool> {
    if s.len() > 100 {
        s.drop_first().push(ok)
    } else {
        s.push(ok)
    }
}

/// The part of the probes lost, in percent.
pub open spec fn loss_percent(s: Seq<bool>) -> int {
    losses(s) as int * 100 / s.len() as int
}

/// The loss as it is told once the probes are `s`: it is told anew from the
/// thirty-first probe on.
pub open spec fn rated(lost_rate: u32, s: Seq<bool>) -> int {
    if s.len() > 30 {
        loss_percent(s)
    } else {
        lost_rate as int
    }
}

/// The latest probes of a carrier, and how many of them were lost.
#[derive(Debug)]
pub struct PingWindow {
    answered: Vec<bool>,
    lost: u32,
}

impl View for PingWindow {
    type V = Seq<bool>;

    closed spec fn view(&self) -> Seq<bool> {
        self.answered@
    }
}

/// No more probes are lost than were made, and dropping the oldest drops its loss.
proof fn lemma_losses(s: Seq<bool>)
    ensures
        losses(s) <= s.len(),
        s.len() > 0 ==> losses(s) == losses(s.drop_first()) + (if s[0] {
            0nat
        } else {
            1nat
        }),
    decreases s.len(),
{
    if s.len() == 1 {
        assert(s.drop_first() =~= Seq::<bool>::empty());
        assert(s.drop_last() =~= Seq::<bool>::empty());
        assert(losses(s.drop_last()) == 0);
    } else if s.len() > 1 {
        lemma_losses(s.drop_last());
        assert(s.drop_last().drop_first() =~= s.drop_first().drop_last());
    }
}

/// The loss is a percentage.
pub proof fn law_loss_is_percentage(s: Seq<bool>)
    requires
        s.len() > 0,
    ensures
        0 <= loss_percent(s) <= 100,
{
    lemma_losses(s);
    let l = losses(s) as int;
    let n = s.len() as int;
    assert(0 <= l * 100 / n <= 100) by (nonlinear_arith)
        requires
            0 <= l <= n,
            n > 0,
    ;
}

/// All the probes of the window answered is no loss, none of them is a loss of all.
pub proof fn law_loss_extremes(s: Seq<bool>)
    requires
        s.len() > 0,
    ensures
        (forall|i: int| 0 <= i < s.len() ==> s[i]) <==> losses(s) == 0,
        (forall|i: int| 0 <= i < s.len() ==> !s[i]) <==> losses(s) == s.len(),
        (forall|i: int| 0 <= i < s.len() ==> !s[i]) ==> loss_percent(s) == 100,
        (forall|i: int| 0 <= i < s.len() ==> s[i]) ==> loss_percent(s) == 0,
{
    lemma_extremes(s);
    let n = s.len() as int;
    assert(n * 100 / n == 100) by (nonlinear_arith)
        requires
            n > 0,
    ;
    assert(0int * 100 / n == 0) by (nonlinear_arith)
        requires
            n > 0,
    ;
}

proof fn lemma_extremes(s: Seq<bool>)
    ensures
        (forall|i: int| 0 <= i < s.len() ==> s[i]) <==> losses(s) == 0,
        (forall|i: int| 0 <= i < s.len() ==> !s[i]) <==> losses(s) == s.len(),
    decreases s.len(),
{
    lemma_losses(s);
    if s.len() > 0 {
        let t = s.drop_last();
        lemma_extremes(t);
        lemma_losses(t);
        assert(s.last() == s[s.len() - 1]);
        assert(forall|i: int| 0 <= i < t.len() ==> t[i] == s[i]);
    }
}

impl PingWindow {
    /// At most a hundred and one probes are kept, and the losses among them are
    /// counted.
    pub closed spec fn wf(&self) -> bool {
        &&& self.answered@.len() <= 101
        &&& self.lost == losses(self.answered@)
    }

    /// No probe yet.
    pub fn new() -> (r: Self)
        ensures
            r.wf(),
            r@ == Seq::<bool>::empty(),
    {
        PingWindow { answered: Vec::new(), lost: 0 }
    }

    /// Takes in a probe that ended as `probe` after `elapsed_ms` milliseconds, and
    /// says in `data` how the carrier answers.
    pub fn record(&mut self, probe: Probe, elapsed_ms: u128, data: &mut PingData)
        requires
            old(self).wf(),
        ensures
            final(self).wf(),
            final(self)@ == slid(old(self)@, answered(probe)),
            final(self)@.len() <= 101,
            final(data).probe_uri == old(data).probe_uri,
            final(data).ping_time == elapsed_ms % 0x1_0000_0000,
            final(data).lost_rate == rated(old(data).lost_rate, final(self)@),
    {
        if self.answered.len() > 100 {
            proof {
                lemma_losses(self.answered@);
            }
            let ghost s = self.answered@;
            let first = self.answered.remove(0);
            assert(self.answered@ =~= s.drop_first());
            if !first {
                self.lost = self.lost - 1;
            }
        }
        let ghost s = self.answered@;
        proof {
            lemma_losses(s);
        }
        let ok: bool = match probe {
            Probe::Connected => true,
            Probe::Refused => true,
            Probe::Failed => false,
        };
        if !ok {
            self.lost = self.lost + 1;
        }
        self.answered.push(ok);
        assert(s.push(ok).drop_last() =~= s);
        assert(elapsed_ms as u32 == elapsed_ms % 0x1_0000_0000) by (bit_vector);
        data.ping_time = elapsed_ms as u32;
        let n: usize = self.answered.len();
        if n > 30 {
            proof {
                law_loss_is_percentage(self.answered@);
            }
            data.lost_rate = self.lost * 100 / n as u32;
        }
    }
}

/// What the three carriers are probed with, and whether they are probed at all.
#[derive(Debug)]
pub struct PingSetup {
    pub ping_10010: PingData,
    pub ping_189: PingData,
    pub ping_10086: PingData,
    pub start: bool,
}

/// A carrier of which nothing is known but where it is reached.
pub open spec fn unprobed(d: PingData, uri: Seq<char>) -> bool {
    d.probe_uri@ == uri && d.lost_rate == 0 && d.ping_time == 0
}

/// Sets up what is known of the three carriers; they are probed unless the options
/// say otherwise.
pub fn start_all_ping_collect_t(args: &Args) -> (r: PingSetup)
    ensures
        unprobed(r.ping_10010, args.cu_addr@),
        unprobed(r.ping_189, args.ct_addr@),
        unprobed(r.ping_10086, args.cm_addr@),
        r.start == !args.disable_ping,
{
    PingSetup {
        ping_10010: PingData { probe_uri: args.cu_addr.clone(), lost_rate: 0, ping_time: 0 },
        ping_189: PingData { probe_uri: args.ct_addr.clone(), lost_rate: 0, ping_time: 0 },
        ping_10086: PingData { probe_uri: args.cm_addr.clone(), lost_rate: 0, ping_time: 0 },
        start: !args.disable_ping,
    }
}

} // verus!
