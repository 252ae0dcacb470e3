//! Rendering of a record set as zone-file text, the bulk-upload format of
//! the provider.

use vstd::prelude::*;

use crate::api::Record;
use crate::net::{spec_code, DNSType};

verus! {

/// One zone-file line for a record, in the form
/// `host2.homelab.local. IN A 10.1.100.91`; an MX record carries a fixed
/// priority of 10.
pub open spec fn spec_bind_line(r: Record) -> Seq<char> {
    if r.record_type == DNSType::MX {
        r.name@ + " IN MX 10 "@ + r.data@ + "\n"@
    } else {
        r.name@ + " IN "@ + spec_code(r.record_type) + " "@ + r.data@ + "\n"@
    }
}

/// The zone-file text of a record set: one line per record, in order.
pub open spec fn spec_bind(rs: Seq<Record>) -> Seq<char>
    decreases rs.len(),
{
    if rs.len() == 0 {
        Seq::empty()
    } else {
        spec_bind(rs.drop_last()) + spec_bind_line(rs.last())
    }
}

/// Generate the zone-file text of `records`, one line per record.
pub fn to_bind(records: &[Record]) -> (res: String)
    ensures
        res@ == spec_bind(records@),
{
    let mut res = String::new();
    let mut i: usize = 0;
    while i < records.len()
        invariant
            i <= records@.len(),
            res@ == spec_bind(records@.take(i as int)),
        decreases records@.len() - i,
    {
        let r = &records[i];
        let mut line = r.name.clone();
        if r.record_type == DNSType::MX {
            line.append(" IN MX 10 ");
        } else {
            line.append(" IN ");
            line.append(r.record_type.code());
            line.append(" ");
        }
        line.append(r.data.as_str());
        line.append("\n");
        proof {
            assert(line@ == spec_bind_line(records@[i as int]));
        }
        res.append(line.as_str());
        proof {
            assert(records@.take(i + 1).drop_last() =~= records@.take(i as int));
            assert(records@.take(i + 1).last() == records@[i as int]);
        }
        i = i + 1;
    }
    proof {
        assert(records@.take(records@.len() as int) =~= records@);
    }
    res
}

} // verus!
