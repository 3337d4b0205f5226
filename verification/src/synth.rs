//! Batch generation: one chain per simulated agent from declarative
//! per-agent inputs.
//!
//! Agents are independent of one another; records within one agent are
//! chained, so they are produced in order. A signing failure aborts the
//! whole batch, as a generation-time fault.

use vstd::prelude::*;

use crate::chain::{Chain, ChainItem, GenError, SignOracle};
use crate::data::HeaderKind;

verus! {

/// The input for one agent: its identity, the namespace, the genesis
/// settings and the application items its chain should carry.
#[derive(Clone, Debug, PartialEq, Eq)]
pub struct Generate {
    pub author: u64,
    pub dna_hash: u64,
    /// Timestamp of the first genesis record, microseconds since the
    /// epoch; each following record is one microsecond later.
    pub start_time: u64,
    pub membrane_proof: Option<u64>,
    pub data: Vec<ChainItem>,
}

/// The machine limits a generation input must respect: its timestamps and
/// sequence numbers must fit their types.
pub open spec fn generate_fits(g: Generate) -> bool {
    &&& g.start_time + 2 + g.data@.len() <= u64::MAX
    &&& 3 + g.data@.len() < u32::MAX
}

/// A produced chain realises its input: the monotonic chain invariant
/// holds, the genesis triple carries the input's namespace and proof, the
/// timestamps count up from the start time, and each application item
/// appears as the corresponding record.
pub open spec fn chain_realises(c: Chain, g: Generate) -> bool {
    &&& c.wf()
    &&& c.author == g.author
    &&& c.records@.len() == 3 + g.data@.len()
    &&& c.records@[0].header.kind == (HeaderKind::Dna { dna_hash: g.dna_hash })
    &&& c.records@[1].header.kind == (HeaderKind::AgentValidationPkg {
        membrane_proof: g.membrane_proof,
    })
    &&& forall|i: int|
        0 <= i < c.records@.len() ==> (#[trigger] c.records@[i]).header.timestamp == g.start_time
            + i
    &&& forall|i: int|
        0 <= i < g.data@.len() ==> (#[trigger] c.records@[3 + i]).header.kind
            == g.data@[i].spec_kind() && c.records@[3 + i].entry == g.data@[i].spec_entry()
}

/// Produce one agent's chain: the genesis triple followed by one record
/// per item, chained by hash, timestamp and sequence number.
pub fn synthesize_chain<S: SignOracle>(signer: &mut S, g: Generate) -> (r: Result<
    Chain,
    GenError,
>)
    requires
        generate_fits(g),
    ensures
        r is Ok ==> chain_realises(r->Ok_0, g),
{
    let ghost orig = g.data@;
    let Generate { author, dna_hash, start_time, membrane_proof, data } = g;
    let mut chain = Chain::genesis(signer, author, dna_hash, start_time, membrane_proof)?;
    let mut items = data;
    while items.len() > 0
        invariant
            items@.len() <= orig.len(),
            items@ == orig.skip(orig.len() - items@.len()),
            chain.wf(),
            chain.author == author,
            chain.records@.len() == 3 + orig.len() - items@.len(),
            start_time + 2 + orig.len() <= u64::MAX,
            3 + orig.len() < u32::MAX,
            chain.records@[0].header.kind == (HeaderKind::Dna { dna_hash }),
            chain.records@[1].header.kind == (HeaderKind::AgentValidationPkg { membrane_proof }),
            forall|i: int|
                0 <= i < chain.records@.len() ==> (#[trigger] chain.records@[i]).header.timestamp
                    == start_time + i,
            forall|i: int|
                0 <= i < orig.len() - items@.len() ==> (
                #[trigger] chain.records@[3 + i]).header.kind == orig[i].spec_kind()
                    && chain.records@[3 + i].entry == orig[i].spec_entry(),
        decreases items@.len(),
    {
        let ghost k = orig.len() - items@.len();
        let item = items.remove(0);
        proof {
            assert(item == orig[k]);
            assert(items@ =~= orig.skip(k + 1));
            assert(chain.spec_head_timestamp() == start_time + chain.records@.len() - 1);
        }
        let ghost before = chain;
        match chain.append_item(item, signer) {
            Ok(_) => {},
            Err(e) => {
                return Err(e);
            },
        }
        proof {
            let n = before.records@.len() as int;
            assert forall|i: int| 0 <= i < n implies chain.records@[i] == before.records@[i] by {
                assert(chain.records@.take(n)[i] == chain.records@[i]);
            }
        }
    }
    proof {
        assert(items@.len() == 0);
    }
    Ok(chain)
}

/// The whole batch: the per-agent inputs, realised agent by agent.
pub struct GenerateBatch {
    pub agent_data: Vec<Generate>,
}

impl GenerateBatch {
    /// Produce every agent's chain, in input order. The first signing
    /// failure aborts the whole batch.
    pub fn make<S: SignOracle>(self, signer: &mut S) -> (r: Result<Vec<Chain>, GenError>)
        requires
            forall|m: int|
                0 <= m < self.agent_data@.len() ==> generate_fits(#[trigger] self.agent_data@[m]),
        ensures
            r is Ok ==> {
                let chains = r->Ok_0@;
                &&& chains.len() == self.agent_data@.len()
                &&& forall|m: int|
                    0 <= m < chains.len() ==> chain_realises(
                        #[trigger] chains[m],
                        self.agent_data@[m],
                    )
            },
    {
        let ghost orig = self.agent_data@;
        let mut inputs = self.agent_data;
        let mut out: Vec<Chain> = Vec::new();
        while inputs.len() > 0
            invariant
                inputs@.len() <= orig.len(),
                inputs@ == orig.skip(orig.len() - inputs@.len()),
                out@.len() == orig.len() - inputs@.len(),
                forall|m: int|
                    0 <= m < orig.len() ==> generate_fits(#[trigger] orig[m]),
                forall|m: int|
                    0 <= m < out@.len() ==> chain_realises(#[trigger] out@[m], orig[m]),
            decreases inputs@.len(),
        {
            let ghost k = orig.len() - inputs@.len();
            let g = inputs.remove(0);
            proof {
                assert(g == orig[k]);
                assert(inputs@ =~= orig.skip(k + 1));
            }
            let chain = synthesize_chain(signer, g)?;
            out.push(chain);
        }
        Ok(out)
    }
}


/// Default genesis timestamp for builders that leave the start time unset:
/// an arbitrary fixed epoch in microseconds.
pub const DEFAULT_START_TIME: u64 = 1_600_000_000_000_000;

/// The declarative genesis settings of one agent; required fields without
/// a default are the author and the namespace. An unset author is an
/// input error rather than an implicit fresh identity: a caller wanting a
/// generated identity draws a key from the byte source and sets it.
pub struct GenesisBuilder {
    pub author: Option<u64>,
    pub dna_hash: Option<u64>,
    pub start_time: Option<u64>,
    pub membrane_proof: Option<u64>,
}

impl GenesisBuilder {
    /// An empty builder.
    pub fn new() -> (r: GenesisBuilder)
        ensures
            r.author is None,
            r.dna_hash is None,
            r.start_time is None,
            r.membrane_proof is None,
    {
        GenesisBuilder { author: None, dna_hash: None, start_time: None, membrane_proof: None }
    }

    /// Check the settings and attach the application items: fails with the
    /// missing-field error exactly when the author or the namespace is
    /// unset; an unset start time defaults.
    pub fn build(self, data: Vec<ChainItem>) -> (r: Result<Generate, GenError>)
        ensures
            r is Ok <==> self.author is Some && self.dna_hash is Some,
            r is Err ==> r->Err_0 == GenError::MissingField,
            r is Ok ==> {
                let g = r->Ok_0;
                &&& g.author == self.author->0
                &&& g.dna_hash == self.dna_hash->0
                &&& g.start_time == match self.start_time {
                    Some(t) => t,
                    None => DEFAULT_START_TIME,
                }
                &&& g.membrane_proof == self.membrane_proof
                &&& g.data == data
            },
    {
        let author = match self.author {
            Some(a) => a,
            None => {
                return Err(GenError::MissingField);
            },
        };
        let dna_hash = match self.dna_hash {
            Some(d) => d,
            None => {
                return Err(GenError::MissingField);
            },
        };
        let start_time = match self.start_time {
            Some(t) => t,
            None => DEFAULT_START_TIME,
        };
        Ok(Generate {
            author,
            dna_hash,
            start_time,
            membrane_proof: self.membrane_proof,
            data,
        })
    }
}

} // verus!
