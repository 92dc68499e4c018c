//! The port scanner's records. The driver attempts one TCP connection per
//! port of the fixed common-port set, in parallel, and feeds each settled
//! attempt here: a record is appended under the lock, labelled with the
//! port's service name, open exactly when the connect succeeded. A failed
//! connect never fails the run; it simply records a closed port.

use vstd::prelude::*;

verus! {

/// The service label the output uses for a port of the common-port set.
pub open spec fn port_label_spec(port: u16) -> Seq<char> {
    if port == 21 {
        "FTP"@
    } else if port == 22 {
        "SSH"@
    } else if port == 23 {
        "Telnet"@
    } else if port == 25 {
        "SMTP"@
    } else if port == 80 {
        "HTTP"@
    } else if port == 110 {
        "POP3"@
    } else if port == 143 {
        "IMAP"@
    } else if port == 443 {
        "HTTPS"@
    } else if port == 3306 {
        "MySQL"@
    } else if port == 8080 {
        "HTTP Proxy"@
    } else {
        "Unknown"@
    }
}

/// The fixed set of common ports the scanner probes, in probe order.
pub open spec fn common_ports_spec() -> Seq<u16> {
    seq![21u16, 22u16, 23u16, 25u16, 80u16, 110u16, 143u16, 443u16, 3306u16, 8080u16]
}

/// The service label for a port; ports outside the common-port set are
/// `Unknown`.
pub fn port_label(port: u16) -> (r: &'static str)
    ensures
        r@ == port_label_spec(port),
{
    match port {
        21 => "FTP",
        22 => "SSH",
        23 => "Telnet",
        25 => "SMTP",
        80 => "HTTP",
        110 => "POP3",
        143 => "IMAP",
        443 => "HTTPS",
        3306 => "MySQL",
        8080 => "HTTP Proxy",
        _ => "Unknown",
    }
}

/// The common-port set, one connection attempt per element.
pub fn common_ports() -> (r: Vec<u16>)
    ensures
        r@ == common_ports_spec(),
{
    let mut r: Vec<u16> = Vec::new();
    r.push(21);
    r.push(22);
    r.push(23);
    r.push(25);
    r.push(80);
    r.push(110);
    r.push(143);
    r.push(443);
    r.push(3306);
    r.push(8080);
    proof {
        assert(r@ =~= common_ports_spec());
    }
    r
}

/// One settled port check: the port, its service label, and whether the
/// connection attempt succeeded.
pub struct PortRecord {
    pub port: u16,
    pub label: String,
    pub is_open: bool,
}

/// A record is well-formed when its label is the one the port owns.
pub open spec fn record_wf(r: PortRecord) -> bool {
    r.label@ == port_label_spec(r.port)
}

/// The append-only collection of settled port checks, guarded by the same
/// lock discipline as the result set.
pub struct PortScanResults {
    records: Vec<PortRecord>,
}

impl PortScanResults {
    /// The settled records in arrival order.
    pub closed spec fn records_seq(self) -> Seq<PortRecord> {
        self.records@
    }

    /// Every record carries its port's label.
    pub open spec fn wf(self) -> bool {
        forall|i: int|
            0 <= i < self.records_seq().len() ==> record_wf(#[trigger] self.records_seq()[i])
    }

    /// An empty collection.
    pub fn new() -> (r: PortScanResults)
        ensures
            r.wf(),
            r.records_seq() == Seq::<PortRecord>::empty(),
    {
        let r = PortScanResults { records: Vec::new() };
        proof {
            assert(r.records_seq() =~= Seq::<PortRecord>::empty());
        }
        r
    }

    /// Appends the record of one settled connection attempt. Earlier records
    /// stay untouched; the new one ends the sequence, open exactly when the
    /// connect succeeded.
    pub fn record_outcome(&mut self, port: u16, connected: bool)
        requires
            old(self).wf(),
        ensures
            final(self).wf(),
            final(self).records_seq().len() == old(self).records_seq().len() + 1,
            final(self).records_seq().drop_last() == old(self).records_seq(),
            final(self).records_seq().last().port == port,
            final(self).records_seq().last().is_open == connected,
            final(self).records_seq().last().label@ == port_label_spec(port),
    {
        let label = port_label(port).to_owned();
        self.records.push(PortRecord { port, label, is_open: connected });
        proof {
            assert(final(self).records_seq().drop_last() =~= old(self).records_seq());
        }
    }

    /// How many attempts have settled.
    pub fn len(&self) -> (n: usize)
        ensures
            n == self.records_seq().len(),
    {
        self.records.len()
    }

    /// The settled records, handed to the output stage after the join.
    pub fn into_records(self) -> (r: Vec<PortRecord>)
        ensures
            r@ == self.records_seq(),
    {
        self.records
    }
}

/// The records of the ports that were found open, in arrival order: what the
/// output's open-ports section lists, and empty exactly when the section is
/// omitted.
pub fn open_records(records: &Vec<PortRecord>) -> (r: Vec<PortRecord>)
    ensures
        r@ == records@.filter(|rec: PortRecord| rec.is_open),
{
    let mut r: Vec<PortRecord> = Vec::new();
    proof {
        reveal(Seq::filter);
        assert(r@ =~= records@.take(0).filter(|rec: PortRecord| rec.is_open));
    }
    let mut i: usize = 0;
    while i < records.len()
        invariant
            0 <= i <= records@.len(),
            r@ == records@.take(i as int).filter(|rec: PortRecord| rec.is_open),
        decreases records@.len() - i,
    {
        proof {
            reveal(Seq::filter);
            assert(records@.take(i + 1).drop_last() =~= records@.take(i as int));
            assert(records@.take(i + 1).last() == records@[i as int]);
        }
        let rec = &records[i];
        if rec.is_open {
            let copy = PortRecord { port: rec.port, label: rec.label.clone(), is_open: rec.is_open };
            proof {
                assert(copy == records@[i as int]);
            }
            r.push(copy);
        }
        i = i + 1;
    }
    proof {
        assert(records@.take(records@.len() as int) =~= records@);
    }
    r
}

} // verus!
