//! The records of the nations and regions data dumps.
//!
//! Floating-point fields are kept as the bit patterns of their `f64` values
//! (`f64::to_bits`), so that a record carries them through unchanged.

use vstd::prelude::*;

use crate::canon::{canonical, canonicalize, lemma_canonical_has_no_space};
use crate::text::text_equals;

verus! {

/// A nation's freedom ratings, in words.
#[derive(Debug)]
pub struct Freedoms {
    pub civilrights: String,
    pub economy: String,
    pub polfreedom: String,
}

/// A nation's freedom scores.
#[derive(Debug)]
pub struct FreedomScores {
    pub civilrights: i64,
    pub economy: i64,
    pub polfreedom: i64,
}

/// A nation's government spending shares, each the bit pattern of an `f64`.
#[derive(Debug)]
pub struct Government {
    pub admin: u64,
    pub defence: u64,
    pub education: u64,
    pub environment: u64,
    pub healthcare: u64,
    pub commerce: u64,
    pub aid: u64,
    pub law: u64,
    pub transport: u64,
    pub equality: u64,
    pub spirituality: u64,
    pub welfare: u64,
}

/// A cause of death and its share, the share the bit pattern of an `f64`.
#[derive(Debug)]
pub struct Cause {
    pub kind: String,
    pub percentage: u64,
}

/// One nation of the nations dump.
#[derive(Debug)]
pub struct Nation {
    pub name: String,
    pub canon_name: String,
    pub classification: String,
    pub fullname: String,
    pub motto: String,
    pub category: String,
    pub unstatus: String,
    pub is_wa: bool,
    pub is_delegate: bool,
    pub endorsements: Vec<String>,
    pub issues_answered: i64,
    pub freedoms: Freedoms,
    pub region: String,
    pub population: i64,
    /// Bit pattern of the tax rate.
    pub tax: u64,
    pub animal: String,
    pub currency: String,
    pub demonym: String,
    pub demonym2: String,
    pub demonym2plural: String,
    pub flag_url: String,
    pub major_industry: String,
    pub govt_priority: String,
    pub government: Government,
    pub founded: String,
    pub firstlogin: i64,
    pub lastlogin: i64,
    pub lastactivity: String,
    pub influence: String,
    /// Bit pattern of the influence score.
    pub influencenum: u64,
    pub freedom_scores: FreedomScores,
    /// Bit pattern of the public sector share.
    pub publicsector: u64,
    pub deaths: Vec<Cause>,
    pub leader: String,
    pub capital: String,
    pub religion: String,
    pub factbooks: i64,
    pub dispatches: i64,
    pub dbid: i64,
}

/// The World Assembly status of a delegate.
pub open spec fn delegate_status() -> Seq<char> {
    "WA Delegate"@
}

/// The World Assembly status of a member that is not the delegate.
pub open spec fn member_status() -> Seq<char> {
    "WA Member"@
}

/// The two World Assembly statuses, character by character: `WA Delegate`
/// and `WA Member`, capitalised and spaced exactly so.
pub proof fn lemma_status_names()
    ensures
        delegate_status() == seq!['W', 'A', ' ', 'D', 'e', 'l', 'e', 'g', 'a', 't', 'e'],
        member_status() == seq!['W', 'A', ' ', 'M', 'e', 'm', 'b', 'e', 'r'],
{
    reveal_strlit("WA Delegate");
    reveal_strlit("WA Member");
    assert(delegate_status() =~= seq!['W', 'A', ' ', 'D', 'e', 'l', 'e', 'g', 'a', 't', 'e']);
    assert(member_status() =~= seq!['W', 'A', ' ', 'M', 'e', 'm', 'b', 'e', 'r']);
}

impl Nation {
    /// Fills in the fields that the dump does not hold: the canonical name,
    /// and the World Assembly flags read from `unstatus`
    /// (`"WA Member"` gives `is_wa` and not `is_delegate`). Nothing else changes.
    pub fn finalize(self) -> (r: Self)
        ensures
            r.canon_name@ == canonical(self.name@),
            r.is_delegate == (self.unstatus@ == delegate_status()),
            r.is_wa == (self.unstatus@ == delegate_status() || self.unstatus@ == member_status()),
            r.is_delegate ==> r.is_wa,
            !r.canon_name@.contains(' '),
            r == (Nation { canon_name: r.canon_name, is_wa: r.is_wa, is_delegate: r.is_delegate, ..self }),
    {
        proof {
            lemma_canonical_has_no_space(self.name@);
        }
        let mut n = self;
        n.canon_name = canonicalize(n.name.as_str());
        n.is_delegate = text_equals(n.unstatus.as_str(), "WA Delegate");
        n.is_wa = n.is_delegate || text_equals(n.unstatus.as_str(), "WA Member");
        n
    }
}

/// An officer of a region.
#[derive(Debug)]
pub struct Officer {
    pub nation: String,
    pub office: String,
    pub authority: String,
    pub time: i64,
    pub by: String,
    pub order: i64,
}

/// One region of the regions dump.
#[derive(Debug)]
pub struct Region {
    pub name: String,
    pub canon_name: String,
    pub factbook: String,
    pub numnations: i64,
    pub nations: Vec<String>,
    pub delegate: String,
    pub delegatevotes: i64,
    pub delegateauth: String,
    pub frontier: i64,
    pub founder: String,
    pub governor: String,
    pub officers: Vec<Officer>,
    pub power: String,
    /// Bit pattern of the region's magnetism.
    pub magnetism: u64,
    pub flag_url: String,
    pub banner_id: String,
    pub banner_url: String,
    pub embassies: Vec<String>,
    pub lastupdate: i64,
    pub lastmajorupdate: i64,
    pub lastminorupdate: i64,
}

impl Region {
    /// Fills in the canonical name (`"the Plains of Perdition"` gives
    /// `"the_plains_of_perdition"`). Nothing else changes.
    pub fn finalize(self) -> (r: Self)
        ensures
            r.canon_name@ == canonical(self.name@),
            !r.canon_name@.contains(' '),
            r == (Region { canon_name: r.canon_name, ..self }),
    {
        proof {
            lemma_canonical_has_no_space(self.name@);
        }
        let mut g = self;
        g.canon_name = canonicalize(g.name.as_str());
        g
    }
}

} // verus!
