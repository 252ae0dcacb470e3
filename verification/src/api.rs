//! Domains, zone versions and records, and the operations on them.
//!
//! A zone is never edited in place: records are added to an inactive
//! version, which is then enabled to become the live zone.  Every operation
//! here either decides something locally (resolution, filtering, the guards
//! protecting the active version) or describes the HTTP call to make as a
//! [`QueryRequest`] value; the caller performs the call and hands the
//! response body back to the decoders.

use vstd::prelude::*;

use crate::bind::{spec_bind, to_bind};
use crate::error::Error;
use crate::net::{spec_code, DNSType, HTTPOp, PostData, QueryRequest};
use crate::strutil::{
    ends_with, eq_str, is_suffix_of, spec_decimal, spec_strip_quotes, strip_quotes, substr_string,
    usize_to_string,
};

verus! {

/// A DNS domain.
/// For API design reasons, the API key is stored inside the domain as well.
#[derive(Debug, PartialEq)]
pub struct Domain {
    pub api_key: String,
    pub id: usize,
    pub name: String,
    pub dnssec: bool,
    pub external: bool,
}

impl Clone for Domain {
    fn clone(&self) -> (res: Self)
        ensures
            res == *self,
    {
        Domain {
            api_key: self.api_key.clone(),
            id: self.id,
            name: self.name.clone(),
            dnssec: self.dnssec,
            external: self.external,
        }
    }
}

/// A DNS entry belonging to one zone version.  A record not yet submitted to
/// the provider carries the id 0; the id of a stored record is
/// server-assigned.
#[derive(Debug, PartialEq)]
pub struct Record {
    pub id: usize,
    pub name: String,
    pub record_type: DNSType,
    pub ttl: usize,
    pub data: String,
}

impl Clone for Record {
    fn clone(&self) -> (res: Self)
        ensures
            res == *self,
    {
        Record {
            id: self.id,
            name: self.name.clone(),
            record_type: self.record_type,
            ttl: self.ttl,
            data: self.data.clone(),
        }
    }
}

impl Record {
    /// A fresh record, not yet submitted: its id is 0, which the provider
    /// ignores on creation.
    pub fn new(entry_name: &str, entry_type: DNSType, entry_value: &str, entry_ttl: usize) -> (r:
        Record)
        ensures
            r.id == 0,
            r.name@ == entry_name@,
            r.record_type == entry_type,
            r.ttl == entry_ttl,
            r.data@ == entry_value@,
    {
        Record {
            id: 0,
            name: entry_name.to_owned(),
            record_type: entry_type,
            ttl: entry_ttl,
            data: entry_value.to_owned(),
        }
    }
}

/// A zone version: one snapshot of a domain's record set.  At most the
/// version flagged active is live; it may not be mutated or deleted.
#[derive(Debug, PartialEq)]
pub struct Version {
    pub uuid: String,
    pub name: String,
    pub active: bool,
}

impl Clone for Version {
    fn clone(&self) -> (res: Self)
        ensures
            res == *self,
    {
        Version { uuid: self.uuid.clone(), name: self.name.clone(), active: self.active }
    }
}

// ------------------------------------------------------------------
// Domain resolution
// ------------------------------------------------------------------
/// A name with one trailing dot stripped.
pub open spec fn spec_normalized(f: Seq<char>) -> Seq<char> {
    if f.len() > 0 && f.last() == '.' {
        f.drop_last()
    } else {
        f
    }
}

/// Whether `name` is a suffix of `f` sitting at a label boundary: either the
/// whole of `f`, or preceded by a dot.
pub open spec fn suffix_matches(f: Seq<char>, name: Seq<char>) -> bool {
    is_suffix_of(name, f) && (f.len() == name.len() || f[f.len() - name.len() - 1] == '.')
}

/// The part of `f` in front of the matched suffix, with the separating dot
/// removed; empty when the suffix is the whole name.
pub open spec fn spec_local_part(f: Seq<char>, name: Seq<char>) -> Seq<char> {
    if f.len() > name.len() {
        f.take(f.len() - name.len() - 1)
    } else {
        Seq::empty()
    }
}

/// First-match resolution: the first domain of the list whose name matches a
/// suffix of `f`, with the remaining local part.
pub open spec fn spec_resolve(f: Seq<char>, domains: Seq<Domain>) -> Option<(Domain, Seq<char>)>
    decreases domains.len(),
{
    if domains.len() == 0 {
        None
    } else if suffix_matches(f, domains[0].name@) {
        Some((domains[0], spec_local_part(f, domains[0].name@)))
    } else {
        spec_resolve(f, domains.drop_first())
    }
}

/// Resolution of a raw name: trailing-dot normalization, then first match.
pub open spec fn spec_find(full: Seq<char>, domains: Seq<Domain>) -> Option<(Domain, Seq<char>)> {
    spec_resolve(spec_normalized(full), domains)
}

/// No two adjacent characters of `f` are both dots.
pub open spec fn no_consecutive_dots(f: Seq<char>) -> bool {
    forall|j: int| #![trigger f[j]] 0 <= j < f.len() - 1 ==> !(f[j] == '.' && f[j + 1] == '.')
}

proof fn lemma_resolve_skip(f: Seq<char>, domains: Seq<Domain>, i: int)
    requires
        0 <= i <= domains.len(),
        forall|j: int| 0 <= j < i ==> !suffix_matches(f, domains[j].name@),
    ensures
        spec_resolve(f, domains) == spec_resolve(f, domains.skip(i)),
    decreases i,
{
    if i > 0 {
        lemma_resolve_skip(f, domains, i - 1);
        assert(domains.skip(i - 1).len() > 0);
        assert(domains.skip(i - 1)[0] == domains[i - 1]);
        assert(domains.skip(i - 1).drop_first() =~= domains.skip(i));
    } else {
        assert(domains.skip(0) =~= domains);
    }
}

impl Domain {
    /// Try to extract the matching domain from the list of available domains,
    /// and the local part of the name: the first domain whose name is a suffix
    /// of the given name (after removing one trailing dot) is returned, together
    /// with what remains of the name once the suffix and the separating dot are
    /// removed.  A suffix only counts at a label boundary.
    pub fn find_and_extract_path(full_domain_name: &str, domains: Vec<Domain>) -> (r: Option<
        (Domain, String),
    >)
        ensures
            r is None <==> spec_find(full_domain_name@, domains@) is None,
            r matches Some(q) ==> (spec_find(full_domain_name@, domains@) matches Some(p) && q.0 == p.0
                && q.1@ == p.1),
    {
        let raw_len = full_domain_name.unicode_len();
        let nf: String = if raw_len > 0 && full_domain_name.get_char(raw_len - 1) == '.' {
            substr_string(full_domain_name, 0, raw_len - 1)
        } else {
            full_domain_name.to_owned()
        };
        proof {
            assert(nf@ == spec_normalized(full_domain_name@));
        }
        let flen = nf.as_str().unicode_len();
        let mut i: usize = 0;
        while i < domains.len()
            invariant
                i <= domains@.len(),
                nf@ == spec_normalized(full_domain_name@),
                flen == nf@.len(),
                forall|j: int| 0 <= j < i ==> !suffix_matches(nf@, domains@[j].name@),
            decreases domains@.len() - i,
        {
            let name = &domains[i].name;
            let nmlen = name.as_str().unicode_len();
            if ends_with(nf.as_str(), name.as_str()) && (flen == nmlen || nf.as_str().get_char(
                flen - nmlen - 1,
            ) == '.') {
                let local: String = if flen > nmlen {
                    substr_string(nf.as_str(), 0, flen - nmlen - 1)
                } else {
                    String::new()
                };
                proof {
                    lemma_resolve_skip(nf@, domains@, i as int);
                    assert(domains@.skip(i as int)[0] == domains@[i as int]);
                    assert(suffix_matches(nf@, domains@[i as int].name@));
                    assert(local@ == spec_local_part(nf@, domains@[i as int].name@));
                }
                return Some((domains[i].clone(), local));
            }
            proof {
                assert(!suffix_matches(nf@, domains@[i as int].name@));
            }
            i = i + 1;
        }
        proof {
            lemma_resolve_skip(nf@, domains@, domains@.len() as int);
            assert(domains@.skip(domains@.len() as int) =~= Seq::<Domain>::empty());
        }
        None
    }

    /// Longest-suffix resolution: among all matching domains the one with the
    /// longest name wins, and among equally long ones the first.  This is the
    /// safer reading of "longest matching suffix" when overlapping domains such
    /// as a parent and a child zone are both present.
    pub fn find_and_extract_path_longest(full_domain_name: &str, domains: Vec<Domain>) -> (r: Option<
        (Domain, String),
    >)
        ensures
            r is None <==> (forall|j: int|
                0 <= j < domains@.len() ==> !suffix_matches(
                    spec_normalized(full_domain_name@),
                    domains@[j].name@,
                )),
            r matches Some(q) ==> (exists|k: int|
                #![trigger domains@[k]]
                {
                    let f = spec_normalized(full_domain_name@);
                    &&& 0 <= k < domains@.len()
                    &&& suffix_matches(f, domains@[k].name@)
                    &&& q.0 == domains@[k]
                    &&& q.1@ == spec_local_part(f, domains@[k].name@)
                    &&& forall|j: int|
                        0 <= j < domains@.len() && suffix_matches(f, domains@[j].name@)
                            ==> domains@[j].name@.len() <= domains@[k].name@.len() && (domains@[j].name@.len()
                            == domains@[k].name@.len() ==> k <= j)
                }),
    {
        let raw_len = full_domain_name.unicode_len();
        let nf: String = if raw_len > 0 && full_domain_name.get_char(raw_len - 1) == '.' {
            substr_string(full_domain_name, 0, raw_len - 1)
        } else {
            full_domain_name.to_owned()
        };
        proof {
            assert(nf@ == spec_normalized(full_domain_name@));
        }
        let flen = nf.as_str().unicode_len();
        let mut best: Option<usize> = None;
        let mut i: usize = 0;
        while i < domains.len()
            invariant
                i <= domains@.len(),
                nf@ == spec_normalized(full_domain_name@),
                flen == nf@.len(),
                best is None ==> (forall|j: int| 0 <= j < i ==> !suffix_matches(nf@, domains@[j].name@)),
                best matches Some(k) ==> 0 <= k < i && suffix_matches(nf@, domains@[k as int].name@)
                    && (forall|j: int|
                    0 <= j < i && suffix_matches(nf@, domains@[j].name@) ==> domains@[j].name@.len()
                        <= domains@[k as int].name@.len() && (domains@[j].name@.len() == domains@[k as int].name@.len()
                        ==> k <= j)),
            decreases domains@.len() - i,
        {
            let name = &domains[i].name;
            let nmlen = name.as_str().unicode_len();
            if ends_with(nf.as_str(), name.as_str()) && (flen == nmlen || nf.as_str().get_char(
                flen - nmlen - 1,
            ) == '.') {
                proof {
                    assert(suffix_matches(nf@, domains@[i as int].name@));
                }
                match best {
                    None => {
                        best = Some(i);
                    },
                    Some(k) => {
                        let best_len = domains[k].name.as_str().unicode_len();
                        if nmlen > best_len {
                            best = Some(i);
                        }
                    },
                }
            } else {
                proof {
                    assert(!suffix_matches(nf@, domains@[i as int].name@));
                }
            }
            i = i + 1;
        }
        match best {
            None => None,
            Some(k) => {
                let name = &domains[k].name;
                let nmlen = name.as_str().unicode_len();
                let local: String = if flen > nmlen {
                    substr_string(nf.as_str(), 0, flen - nmlen - 1)
                } else {
                    String::new()
                };
                Some((domains[k].clone(), local))
            },
        }
    }
}

/// Resolution law: whenever some candidate's name matches a suffix of `f` at
/// a label boundary, resolution finds a match, and the local part it hands
/// back satisfies `local + "." + name == f` when the name is a proper
/// suffix, and is empty when the name is the whole of `f`.  When `f` holds
/// no two consecutive dots, the local part never ends with a dot.
pub proof fn lemma_resolve_finds_match(f: Seq<char>, domains: Seq<Domain>, i: int)
    requires
        0 <= i < domains.len(),
        suffix_matches(f, domains[i].name@),
    ensures
        spec_resolve(f, domains) is Some,
        ({
            let (d, local) = spec_resolve(f, domains)->Some_0;
            &&& suffix_matches(f, d.name@)
            &&& (f.len() > d.name@.len() ==> local + seq!['.'] + d.name@ == f)
            &&& (f.len() == d.name@.len() ==> d.name@ == f && local.len() == 0)
            &&& ((f.len() > d.name@.len() && local.len() > 0 && no_consecutive_dots(f))
                ==> local.last() != '.')
        }),
    decreases domains.len(),
{
    if suffix_matches(f, domains[0].name@) {
        let d = domains[0];
        let name = d.name@;
        let local = spec_local_part(f, name);
        if f.len() > name.len() {
            assert(f[f.len() - name.len() - 1] == '.');
            assert(f.subrange(f.len() - name.len(), f.len() as int) == name);
            assert(local + seq!['.'] + name =~= f);
            if local.len() > 0 && no_consecutive_dots(f) {
                assert(local.last() == f[f.len() - name.len() - 2]);
                assert(!(f[f.len() - name.len() - 2] == '.' && f[f.len() - name.len() - 1] == '.'));
            }
        } else {
            assert(f.subrange(0, f.len() as int) == f);
            assert(name == f);
        }
    } else {
        lemma_resolve_finds_match(f, domains.drop_first(), i - 1);
    }
}

/// Resolution law: when no candidate's name matches a suffix of `f`,
/// resolution yields nothing.
pub proof fn lemma_resolve_no_match(f: Seq<char>, domains: Seq<Domain>)
    requires
        forall|i: int| 0 <= i < domains.len() ==> !suffix_matches(f, domains[i].name@),
    ensures
        spec_resolve(f, domains) is None,
    decreases domains.len(),
{
    if domains.len() > 0 {
        lemma_resolve_no_match(f, domains.drop_first());
    }
}


// ------------------------------------------------------------------
// Record matching and filtering
// ------------------------------------------------------------------
/// The view of an optional string argument.
pub open spec fn opt_str_view(v: Option<&str>) -> Option<Seq<char>> {
    match v {
        Some(s) => Some(s@),
        None => None,
    }
}

/// Whether a caller-supplied value matches stored record data, tolerating
/// the quotes the provider wraps TXT data in: the wanted value may equal the
/// raw data or its quote-stripped form.
pub open spec fn spec_value_matches(data: Seq<char>, wanted: Seq<char>) -> bool {
    wanted == data || wanted == spec_strip_quotes(data)
}

/// Whether a record is selected by a name and an optional value.
pub open spec fn spec_record_selected(r: Record, name: Seq<char>, value: Option<Seq<char>>) -> bool {
    r.name@ == name && (match value {
        Some(w) => spec_value_matches(r.data@, w),
        None => true,
    })
}

/// The ordered subsequence of records selected by a name and an optional
/// value.
pub open spec fn spec_filter_records(
    rs: Seq<Record>,
    name: Seq<char>,
    value: Option<Seq<char>>,
) -> Seq<Record>
    decreases rs.len(),
{
    if rs.len() == 0 {
        Seq::empty()
    } else {
        let rest = spec_filter_records(rs.drop_last(), name, value);
        if spec_record_selected(rs.last(), name, value) {
            rest.push(rs.last())
        } else {
            rest
        }
    }
}

/// Filtering law: what the filter keeps is exactly the records of the input
/// that match -- the name exactly, and the value, when one is given, in its
/// raw or its quote-stripped TXT form.  Together with the filter's own
/// contract this pins the result down as a function of the inputs alone, in
/// input order.
pub proof fn lemma_filter_records_sound(rs: Seq<Record>, name: Seq<char>, value: Option<Seq<char>>)
    ensures
        forall|r: Record| #[trigger]
            spec_filter_records(rs, name, value).contains(r) ==> rs.contains(r)
                && spec_record_selected(r, name, value),
        forall|i: int|
            0 <= i < rs.len() && spec_record_selected(#[trigger] rs[i], name, value)
                ==> spec_filter_records(rs, name, value).contains(rs[i]),
    decreases rs.len(),
{
    if rs.len() > 0 {
        lemma_filter_records_sound(rs.drop_last(), name, value);
        let rest = spec_filter_records(rs.drop_last(), name, value);
        let out = spec_filter_records(rs, name, value);
        assert forall|r: Record| #[trigger] out.contains(r) implies rs.contains(r)
            && spec_record_selected(r, name, value) by {
            let i = choose|i: int| 0 <= i < out.len() && out[i] == r;
            if spec_record_selected(rs.last(), name, value) && i == out.len() - 1 {
                assert(r == rs.last());
                assert(rs[rs.len() - 1] == r);
            } else {
                assert(rest[i] == r);
                assert(rest.contains(r));
                let j = choose|j: int|
                    0 <= j < rs.drop_last().len() && rs.drop_last()[j] == r;
                assert(rs[j] == r);
            }
        }
        assert forall|i: int|
            0 <= i < rs.len() && spec_record_selected(#[trigger] rs[i], name, value) implies out.contains(
            rs[i],
        ) by {
            if i < rs.len() - 1 {
                assert(rs.drop_last()[i] == rs[i]);
                assert(rest.contains(rs[i]));
                let j = choose|j: int| 0 <= j < rest.len() && rest[j] == rs[i];
                assert(out[j] == rs[i]);
            } else {
                assert(out[out.len() - 1] == rs.last());
            }
        }
    }
}

/// The first record of the list matching a name pair, a type and an
/// optional value.
pub open spec fn spec_find_entry(
    rs: Seq<Record>,
    name: Seq<char>,
    short_name: Seq<char>,
    ty: DNSType,
    value: Option<Seq<char>>,
) -> Option<Record>
    decreases rs.len(),
{
    if rs.len() == 0 {
        None
    } else if spec_entry_matches(rs[0], name, short_name, ty, value) {
        Some(rs[0])
    } else {
        spec_find_entry(rs.drop_first(), name, short_name, ty, value)
    }
}

/// Whether a record has the wanted type, one of the two wanted names, and,
/// when a value is given, matching data in raw or quote-stripped form.
pub open spec fn spec_entry_matches(
    r: Record,
    name: Seq<char>,
    short_name: Seq<char>,
    ty: DNSType,
    value: Option<Seq<char>>,
) -> bool {
    r.record_type == ty && (r.name@ == name || r.name@ == short_name) && (match value {
        Some(w) => spec_value_matches(r.data@, w),
        None => true,
    })
}

proof fn lemma_find_entry_skip(
    rs: Seq<Record>,
    name: Seq<char>,
    short_name: Seq<char>,
    ty: DNSType,
    value: Option<Seq<char>>,
    i: int,
)
    requires
        0 <= i <= rs.len(),
        forall|j: int| 0 <= j < i ==> !spec_entry_matches(rs[j], name, short_name, ty, value),
    ensures
        spec_find_entry(rs, name, short_name, ty, value) == spec_find_entry(
            rs.skip(i),
            name,
            short_name,
            ty,
            value,
        ),
    decreases i,
{
    if i > 0 {
        lemma_find_entry_skip(rs, name, short_name, ty, value, i - 1);
        assert(rs.skip(i - 1)[0] == rs[i - 1]);
        assert(rs.skip(i - 1).drop_first() =~= rs.skip(i));
    } else {
        assert(rs.skip(0) =~= rs);
    }
}

/// Whether `wanted` matches `data` raw or with one pair of quotes stripped.
fn value_matches(data: &str, wanted: &str) -> (r: bool)
    ensures
        r == spec_value_matches(data@, wanted@),
{
    if eq_str(wanted, data) {
        return true;
    }
    let stripped = strip_quotes(data);
    eq_str(wanted, stripped.as_str())
}

/// Find the first record carrying entries of the given type under one of
/// the two given names (the full record name and its local short form), and,
/// when a value is given, holding it raw or in the provider's quoted TXT
/// form.
pub fn find_entry(
    records: &Vec<Record>,
    name: &str,
    short_name: &str,
    ty: DNSType,
    value: Option<&str>,
) -> (r: Option<Record>)
    ensures
        r matches Some(rec) ==> (spec_find_entry(
            records@,
            name@,
            short_name@,
            ty,
            opt_str_view(value),
        ) matches Some(s) && rec == s),
        r is None <==> spec_find_entry(records@, name@, short_name@, ty, opt_str_view(value))
            is None,
{
    let mut i: usize = 0;
    while i < records.len()
        invariant
            i <= records@.len(),
            forall|j: int|
                0 <= j < i ==> !spec_entry_matches(
                    records@[j],
                    name@,
                    short_name@,
                    ty,
                    opt_str_view(value),
                ),
        decreases records@.len() - i,
    {
        let rec = &records[i];
        let name_hit = rec.record_type == ty && (eq_str(rec.name.as_str(), name) || eq_str(
            rec.name.as_str(),
            short_name,
        ));
        let hit = name_hit && (match value {
            Some(txt) => value_matches(rec.data.as_str(), txt),
            None => true,
        });
        if hit {
            proof {
                lemma_find_entry_skip(
                    records@,
                    name@,
                    short_name@,
                    ty,
                    opt_str_view(value),
                    i as int,
                );
                assert(records@.skip(i as int)[0] == records@[i as int]);
            }
            return Some(rec.clone());
        }
        proof {
            assert(!spec_entry_matches(records@[i as int], name@, short_name@, ty, opt_str_view(value)));
        }
        i = i + 1;
    }
    proof {
        lemma_find_entry_skip(
            records@,
            name@,
            short_name@,
            ty,
            opt_str_view(value),
            records@.len() as int,
        );
        assert(records@.skip(records@.len() as int) =~= Seq::<Record>::empty());
    }
    None
}

/// The first version of the list flagged active.
pub open spec fn spec_first_active(vs: Seq<Version>) -> Option<Version>
    decreases vs.len(),
{
    if vs.len() == 0 {
        None
    } else if vs[0].active {
        Some(vs[0])
    } else {
        spec_first_active(vs.drop_first())
    }
}

proof fn lemma_first_active_skip(vs: Seq<Version>, i: int)
    requires
        0 <= i <= vs.len(),
        forall|j: int| 0 <= j < i ==> !vs[j].active,
    ensures
        spec_first_active(vs) == spec_first_active(vs.skip(i)),
    decreases i,
{
    if i > 0 {
        lemma_first_active_skip(vs, i - 1);
        assert(vs.skip(i - 1)[0] == vs[i - 1]);
        assert(vs.skip(i - 1).drop_first() =~= vs.skip(i));
    } else {
        assert(vs.skip(0) =~= vs);
    }
}

// ------------------------------------------------------------------
// Request paths
// ------------------------------------------------------------------
/// The path listing the versions of a domain.
pub open spec fn spec_version_list_path(name: Seq<char>) -> Seq<char> {
    "/domain/"@ + name + "/version"@
}

/// The path of one version of a domain.
pub open spec fn spec_version_path(name: Seq<char>, uuid: Seq<char>) -> Seq<char> {
    "/domain/"@ + name + "/version/"@ + uuid
}

/// The path enabling one version.
pub open spec fn spec_enable_path(name: Seq<char>, uuid: Seq<char>) -> Seq<char> {
    spec_version_path(name, uuid) + "/enable"@
}

/// The path of the record set of one version.
pub open spec fn spec_zone_path(name: Seq<char>, uuid: Seq<char>) -> Seq<char> {
    spec_version_path(name, uuid) + "/zone"@
}

/// The path replacing the record set of one version from zone-file text.
pub open spec fn spec_zone_from_bind_path(name: Seq<char>, uuid: Seq<char>) -> Seq<char> {
    spec_version_path(name, uuid) + "/zone_from_bind"@
}

/// The path of one record inside one version.
pub open spec fn spec_record_path(name: Seq<char>, uuid: Seq<char>, id: nat) -> Seq<char> {
    spec_zone_path(name, uuid) + "/"@ + spec_decimal(id)
}

/// The key/value views of a form.
pub open spec fn pairs_view(d: Seq<PostData>) -> Seq<(Seq<char>, Seq<char>)> {
    d.map_values(|p: PostData| (p.0@, p.1@))
}

/// The form submitted to create a record: its name, its type's wire name, a
/// fixed priority of 12, its time to live in decimal, and its data.
pub open spec fn spec_record_form(r: Record) -> Seq<(Seq<char>, Seq<char>)> {
    seq![
        ("name"@, r.name@),
        ("type"@, spec_code(r.record_type)),
        ("priority"@, "12"@),
        ("ttl"@, spec_decimal(r.ttl as nat)),
        ("data"@, r.data@),
    ]
}

/// The form submitted by the in-place update: the record's own fields with
/// the data replaced by the new value.
pub open spec fn spec_update_form(r: Record, new_value: Seq<char>) -> Seq<(Seq<char>, Seq<char>)> {
    seq![
        ("name"@, r.name@),
        ("type"@, spec_code(r.record_type)),
        ("priority"@, "12"@),
        ("ttl"@, spec_decimal(r.ttl as nat)),
        ("data"@, new_value),
    ]
}

/// Whether `q` is the creation request of record `r` in version `uuid` of
/// the domain called `domain_name`.
pub open spec fn is_add_record_request(
    q: QueryRequest,
    domain_name: Seq<char>,
    uuid: Seq<char>,
    r: Record,
) -> bool {
    q.endpoint@ == spec_zone_path(domain_name, uuid) && (q.op matches HTTPOp::POST(d)
        && pairs_view(d@) == spec_record_form(r))
}

/// The request listing all domains the caller controls.
pub fn available_domains_request() -> (r: QueryRequest)
    ensures
        r.endpoint@ == "/domain/"@,
        r.op is GET,
{
    QueryRequest { endpoint: "/domain/".to_owned(), op: HTTPOp::GET }
}

impl Domain {
    fn version_list_path(&self) -> (r: String)
        ensures
            r@ == spec_version_list_path(self.name@),
    {
        let mut p = "/domain/".to_owned();
        p.append(self.name.as_str());
        p.append("/version");
        p
    }

    fn version_path(&self, uuid: &str) -> (r: String)
        ensures
            r@ == spec_version_path(self.name@, uuid@),
    {
        let mut p = "/domain/".to_owned();
        p.append(self.name.as_str());
        p.append("/version/");
        p.append(uuid);
        p
    }

    fn zone_path(&self, uuid: &str) -> (r: String)
        ensures
            r@ == spec_zone_path(self.name@, uuid@),
    {
        let mut p = self.version_path(uuid);
        p.append("/zone");
        p
    }

    fn record_form(record: &Record, data: &str) -> (r: Vec<PostData>)
        ensures
            pairs_view(r@) == spec_update_form(*record, data@),
    {
        let mut form: Vec<PostData> = Vec::new();
        form.push(PostData("name".to_owned(), record.name.clone()));
        form.push(PostData("type".to_owned(), record.record_type.code().to_owned()));
        form.push(PostData("priority".to_owned(), "12".to_owned()));
        form.push(PostData("ttl".to_owned(), usize_to_string(record.ttl)));
        form.push(PostData("data".to_owned(), data.to_owned()));
        proof {
            assert(pairs_view(form@) =~= spec_update_form(*record, data@));
        }
        form
    }

    /// The request listing all versions of this domain.
    pub fn get_versions(&self) -> (r: QueryRequest)
        ensures
            r.endpoint@ == spec_version_list_path(self.name@),
            r.op is GET,
    {
        QueryRequest { endpoint: self.version_list_path(), op: HTTPOp::GET }
    }

    /// The request fetching the version carrying the given reference.
    pub fn get_version(&self, uuid: &str) -> (r: QueryRequest)
        ensures
            r.endpoint@ == spec_version_path(self.name@, uuid@),
            r.op is GET,
    {
        QueryRequest { endpoint: self.version_path(uuid), op: HTTPOp::GET }
    }

    /// The request creating a new zone version, disabled at first.
    pub fn add_version(&self, name: &str) -> (r: QueryRequest)
        ensures
            r.endpoint@ == spec_version_list_path(self.name@),
            r.op matches HTTPOp::POST(d) && pairs_view(d@) == seq![("name"@, name@)],
    {
        let mut form: Vec<PostData> = Vec::new();
        form.push(PostData("name".to_owned(), name.to_owned()));
        proof {
            assert(pairs_view(form@) =~= seq![("name"@, name@)]);
        }
        QueryRequest { endpoint: self.version_list_path(), op: HTTPOp::POST(form) }
    }

    /// The request enabling a version as the live zone of the domain.  The
    /// provider is trusted to deactivate whichever version was active.
    pub fn enable_version(&self, v: &Version) -> (r: QueryRequest)
        ensures
            r.endpoint@ == spec_enable_path(self.name@, v.uuid@),
            r.op matches HTTPOp::PATCH(d) && d is None,
    {
        let mut p = self.version_path(v.uuid.as_str());
        p.append("/enable");
        QueryRequest { endpoint: p, op: HTTPOp::PATCH(None) }
    }

    /// The request deleting an old version.  Deleting the currently active
    /// version is refused here, before anything is sent.
    pub fn delete_version(&self, v: &Version) -> (r: Result<QueryRequest, Error>)
        ensures
            v.active ==> (r matches Err(e) && e is InvalidVersion),
            !v.active ==> (r matches Ok(q) && q.endpoint@ == spec_version_path(self.name@, v.uuid@)
                && q.op is DELETE),
    {
        if v.active {
            return Err(Error::InvalidVersion);
        }
        Ok(QueryRequest { endpoint: self.version_path(v.uuid.as_str()), op: HTTPOp::DELETE })
    }

    /// The request listing all records of the given version.
    pub fn get_zone_records(&self, zone: &Version) -> (r: QueryRequest)
        ensures
            r.endpoint@ == spec_zone_path(self.name@, zone.uuid@),
            r.op is GET,
    {
        QueryRequest { endpoint: self.zone_path(zone.uuid.as_str()), op: HTTPOp::GET }
    }

    /// The request appending `record` to the version `destination`.  The
    /// destination must be inactive: against the active version nothing is
    /// built and the call is refused.  Pass a freshly fetched description of
    /// the destination, so that the flag checked here is current.
    pub fn add_record(&self, destination: &Version, record: &Record) -> (r: Result<
        QueryRequest,
        Error,
    >)
        ensures
            destination.active ==> (r matches Err(e) && e is ActiveZoneForbidden),
            !destination.active ==> (r matches Ok(q) && is_add_record_request(
                q,
                self.name@,
                destination.uuid@,
                *record,
            )),
    {
        if destination.active {
            return Err(Error::ActiveZoneForbidden);
        }
        let form = Self::record_form(record, record.data.as_str());
        proof {
            assert(spec_update_form(*record, record.data@) =~= spec_record_form(*record));
        }
        Ok(QueryRequest { endpoint: self.zone_path(destination.uuid.as_str()), op: HTTPOp::POST(form) })
    }

    /// The creation requests copying every record of `source` into the
    /// version `destination`, in order.  This appends: it does not clear the
    /// destination first, so it should only run against a freshly created,
    /// empty version -- and never against the active one, which is refused.
    pub fn copy_records(&self, source: &Vec<Record>, destination: &Version) -> (r: Result<
        Vec<QueryRequest>,
        Error,
    >)
        ensures
            destination.active ==> (r matches Err(e) && e is ActiveZoneForbidden),
            !destination.active ==> (r matches Ok(qs) && qs@.len() == source@.len() && (forall|
                i: int,
            |
                0 <= i < source@.len() ==> is_add_record_request(
                    #[trigger] qs@[i],
                    self.name@,
                    destination.uuid@,
                    source@[i],
                ))),
    {
        if destination.active {
            return Err(Error::ActiveZoneForbidden);
        }
        let mut qs: Vec<QueryRequest> = Vec::new();
        let mut i: usize = 0;
        while i < source.len()
            invariant
                i <= source@.len(),
                !destination.active,
                qs@.len() == i,
                forall|j: int|
                    0 <= j < i ==> is_add_record_request(
                        #[trigger] qs@[j],
                        self.name@,
                        destination.uuid@,
                        source@[j],
                    ),
            decreases source@.len() - i,
        {
            let q = match self.add_record(destination, &source[i]) {
                Ok(q) => q,
                Err(e) => {
                    return Err(e);
                },
            };
            qs.push(q);
            i = i + 1;
        }
        Ok(qs)
    }

    /// The request replacing the whole record set of the version
    /// `destination` with `records`, rendered as zone-file text.  Any prior
    /// content of that version is discarded by the provider.  The
    /// destination must be inactive: against the active version nothing is
    /// built and the call is refused.
    pub fn set_zone_entries(&self, destination: &Version, records: &[Record]) -> (r: Result<
        QueryRequest,
        Error,
    >)
        ensures
            destination.active ==> (r matches Err(e) && e is ActiveZoneForbidden),
            !destination.active ==> (r matches Ok(q) && q.endpoint@ == spec_zone_from_bind_path(
                self.name@,
                destination.uuid@,
            ) && (q.op matches HTTPOp::PUT(b) && b@ == spec_bind(records@))),
    {
        if destination.active {
            return Err(Error::ActiveZoneForbidden);
        }
        let bind_zone = to_bind(records);
        let mut p = self.version_path(destination.uuid.as_str());
        p.append("/zone_from_bind");
        Ok(QueryRequest { endpoint: p, op: HTTPOp::PUT(bind_zone) })
    }

    /// The request deleting one record of the given version by its id.
    /// Whether the version may be mutated is left to the provider to
    /// enforce; no client-side check guards this call.
    pub fn delete_record(&self, zone: &Version, record: &Record) -> (r: QueryRequest)
        ensures
            r.endpoint@ == spec_record_path(self.name@, zone.uuid@, record.id as nat),
            r.op is DELETE,
    {
        let mut p = self.zone_path(zone.uuid.as_str());
        p.append("/");
        let id = usize_to_string(record.id);
        p.append(id.as_str());
        QueryRequest { endpoint: p, op: HTTPOp::DELETE }
    }

    /// The request pair updating a record of the live zone in place, and the
    /// cleanup after it.
    ///
    /// The provider's update endpoint is supposed to touch only the version
    /// named in the path, but in practice it mutates the currently active
    /// zone directly, whatever version reference the path names, as long as
    /// the record id exists in the active zone.  This client exploits that:
    /// the update names a disposable scratch version (created beforehand,
    /// passed here), and the second request of the pair deletes the scratch
    /// version right after, the mutation having already landed on the live
    /// zone.  This depends on non-contractual server behaviour and has no
    /// clean alternative in the current API; a provider fix will surface as
    /// this path failing.
    pub fn update_record_inplace(&self, scratch: &Version, record: &Record, new_value: &str) -> (r:
        Result<(QueryRequest, QueryRequest), Error>)
        ensures
            scratch.active ==> (r matches Err(e) && e is InvalidVersion),
            !scratch.active ==> (r matches Ok(p) && p.0.endpoint@ == spec_record_path(
                self.name@,
                scratch.uuid@,
                record.id as nat,
            ) && (p.0.op matches HTTPOp::PATCH(d) && (d matches Some(form) && pairs_view(form@)
                == spec_update_form(*record, new_value@))) && p.1.endpoint@ == spec_version_path(
                self.name@,
                scratch.uuid@,
            ) && p.1.op is DELETE),
    {
        if scratch.active {
            return Err(Error::InvalidVersion);
        }
        let mut p = self.zone_path(scratch.uuid.as_str());
        p.append("/");
        let id = usize_to_string(record.id);
        p.append(id.as_str());
        let form = Self::record_form(record, new_value);
        let update = QueryRequest { endpoint: p, op: HTTPOp::PATCH(Some(form)) };
        let cleanup = QueryRequest {
            endpoint: self.version_path(scratch.uuid.as_str()),
            op: HTTPOp::DELETE,
        };
        Ok((update, cleanup))
    }

    /// Extract all records named `entry_name`, and, when `entry_value` is
    /// given, holding that value raw or in the provider's quoted TXT form,
    /// from the record set `records`; nothing when no record matches.
    pub fn filter_records(
        &self,
        records: &Vec<Record>,
        entry_name: &str,
        entry_value: Option<&str>,
    ) -> (r: Option<Vec<Record>>)
        ensures
            ({
                let selected = spec_filter_records(records@, entry_name@, opt_str_view(entry_value));
                &&& (r is None <==> selected.len() == 0)
                &&& (r matches Some(v) ==> v@ == selected)
            }),
    {
        let mut res: Vec<Record> = Vec::new();
        let mut i: usize = 0;
        while i < records.len()
            invariant
                i <= records@.len(),
                res@ == spec_filter_records(
                    records@.take(i as int),
                    entry_name@,
                    opt_str_view(entry_value),
                ),
            decreases records@.len() - i,
        {
            let rec = &records[i];
            let hit = eq_str(rec.name.as_str(), entry_name) && (match entry_value {
                Some(w) => value_matches(rec.data.as_str(), w),
                None => true,
            });
            proof {
                assert(records@.take(i + 1).drop_last() =~= records@.take(i as int));
                assert(records@.take(i + 1).last() == records@[i as int]);
            }
            if hit {
                res.push(rec.clone());
            }
            i = i + 1;
        }
        proof {
            assert(records@.take(records@.len() as int) =~= records@);
        }
        if res.len() > 0 {
            Some(res)
        } else {
            None
        }
    }

    /// The version of the list currently flagged active: the live zone of
    /// the domain.  A domain always has one under normal operation, so an
    /// empty result is a no-record failure.
    pub fn get_current_zone(&self, versions: &Vec<Version>) -> (r: Result<Version, Error>)
        ensures
            spec_first_active(versions@) is None ==> (r matches Err(e) && e is NoRecord),
            spec_first_active(versions@) matches Some(v) ==> (r matches Ok(x) && x == v),
    {
        let mut i: usize = 0;
        while i < versions.len()
            invariant
                i <= versions@.len(),
                forall|j: int| 0 <= j < i ==> !versions@[j].active,
            decreases versions@.len() - i,
        {
            if versions[i].active {
                proof {
                    lemma_first_active_skip(versions@, i as int);
                    assert(versions@.skip(i as int)[0] == versions@[i as int]);
                }
                return Ok(versions[i].clone());
            }
            i = i + 1;
        }
        proof {
            lemma_first_active_skip(versions@, versions@.len() as int);
            assert(versions@.skip(versions@.len() as int) =~= Seq::<Version>::empty());
        }
        Err(Error::NoRecord)
    }
}

} // verus!
