//! One run of the whole engine: domain inputs in, wire payload out.
//!
//! A run creates a fresh registry and timestamp resolver, folds every
//! domain's records into the registry, resolves the single run timestamp,
//! converts the registry into the export batch, and encodes it. No state
//! survives a run: each run's sums are authoritative for their window.

use vstd::prelude::*;

use crate::adapter::{
    max_epoch, records_view, run_adapter, run_adapter_result, DomainSchema, DomainSchemaModel,
    Record, RecordModel,
};
use crate::convert::{registry_to_metric_points, spec_convert};
use crate::encode::{encode_batch, spec_encode_batch, PayloadEncoding};
use crate::errors::MetricsError;
use crate::proto::{ScopeInfo, ScopeInfoModel};
use crate::registry::{FamilyModel, Registry};
use crate::timestamp::{advance, TimestampResolver};

verus! {

/// Model of one domain's input to a run.
pub struct DomainInputModel {
    pub schema: DomainSchemaModel,
    pub records: Seq<RecordModel>,
}

/// One domain's input to a run: its table and its records.
#[derive(Debug)]
pub struct DomainInput {
    pub schema: DomainSchema,
    pub records: Vec<Record>,
}

impl View for DomainInput {
    type V = DomainInputModel;

    open spec fn view(&self) -> DomainInputModel {
        DomainInputModel { schema: self.schema@, records: records_view(self.records@) }
    }
}

/// The models of a sequence of domain inputs.
pub open spec fn domains_view(ds: Seq<DomainInput>) -> Seq<DomainInputModel> {
    ds.map_values(|d: DomainInput| d@)
}

/// Effect of running the first `n` domain adapters over one registry and
/// one resolver.
pub open spec fn spec_run_domains(
    fams: Seq<FamilyModel>,
    resolved: Option<u64>,
    domains: Seq<DomainInputModel>,
    n: int,
) -> Result<(Seq<FamilyModel>, Option<u64>), MetricsError>
    decreases n,
{
    if n <= 0 {
        Ok((fams, resolved))
    } else {
        match spec_run_domains(fams, resolved, domains, n - 1) {
            Err(e) => Err(e),
            Ok((f, res)) => match run_adapter_result(f, domains[n - 1].schema, domains[n - 1].records) {
                Err(e) => Err(e),
                Ok(f2) => Ok(
                    (
                        f2,
                        match max_epoch(domains[n - 1].records) {
                            Some(t) => advance(res, t),
                            None => res,
                        },
                    ),
                ),
            },
        }
    }
}

/// What one run produces for a given fallback timestamp: the payload and
/// content type of the batch accumulated across all domains, every point
/// carrying the run timestamp — the latest record datetime seen, or the
/// fallback if no domain produced a record.
pub open spec fn spec_pipeline(
    domains: Seq<DomainInputModel>,
    fallback_ts: u64,
    scope: ScopeInfoModel,
    encoding: PayloadEncoding,
) -> Result<(Seq<u8>, Seq<char>), MetricsError> {
    match spec_run_domains(Seq::empty(), None, domains, domains.len() as int) {
        Err(e) => Err(e),
        Ok((fams, resolved)) => {
            let ts = match resolved {
                Some(t) => t,
                None => fallback_ts,
            };
            spec_encode_batch(spec_convert(fams, ts), scope, encoding)
        },
    }
}

/// A failure among the first `k` domains decides the whole fold.
proof fn lemma_run_domains_err(
    fams: Seq<FamilyModel>,
    resolved: Option<u64>,
    domains: Seq<DomainInputModel>,
    k: int,
    n: int,
)
    requires
        0 <= k <= n,
        spec_run_domains(fams, resolved, domains, k) is Err,
    ensures
        spec_run_domains(fams, resolved, domains, n) == spec_run_domains(
            fams,
            resolved,
            domains,
            k,
        ),
    decreases n - k,
{
    if n > k {
        lemma_run_domains_err(fams, resolved, domains, k, n - 1);
    }
}

/// Runs every domain adapter over a fresh registry and resolver; on
/// success, hands back the populated registry and the resolved maximum
/// record instant.
fn run_domains(domains: &Vec<DomainInput>) -> (r: Result<
    (Registry, TimestampResolver),
    MetricsError,
>)
    ensures
        match spec_run_domains(
            Seq::empty(),
            None,
            domains_view(domains@),
            domains@.len() as int,
        ) {
            Ok((fams, resolved)) => r matches Ok(p) && p.0@ == fams && p.1@ == resolved
                && p.0.wf(),
            Err(e) => r == Err::<(Registry, TimestampResolver), MetricsError>(e),
        },
{
    let ghost dv = domains_view(domains@);
    let mut registry = Registry::new();
    let mut resolver = TimestampResolver::new();
    let n = domains.len();
    let mut i: usize = 0;
    while i < n
        invariant
            n == domains@.len(),
            dv == domains_view(domains@),
            0 <= i <= n,
            registry.wf(),
            spec_run_domains(Seq::empty(), None, dv, i as int) == Ok::<
                (Seq<FamilyModel>, Option<u64>),
                MetricsError,
            >((registry@, resolver@)),
        decreases n - i,
    {
        proof {
            assert(dv[i as int] == domains@[i as int]@);
        }
        match run_adapter(
            &mut registry,
            &mut resolver,
            &domains[i].schema,
            &domains[i].records,
        ) {
            Ok(()) => (),
            Err(e) => {
                proof {
                    lemma_run_domains_err(Seq::empty(), None, dv, i + 1, n as int);
                }
                return Err(e);
            },
        }
        i += 1;
    }
    Ok((registry, resolver))
}

/// One run with an explicit fallback timestamp, used when the caller
/// supplies the clock value itself.
pub fn run_with_timestamp(
    domains: &Vec<DomainInput>,
    fallback_ts: u64,
    scope: &ScopeInfo,
    encoding: PayloadEncoding,
) -> (r: Result<(Vec<u8>, String), MetricsError>)
    ensures
        match spec_pipeline(domains_view(domains@), fallback_ts, scope@, encoding) {
            Ok((bytes, ct)) => r matches Ok(p) && p.0@ == bytes && p.1@ == ct,
            Err(e) => r == Err::<(Vec<u8>, String), MetricsError>(e),
        },
{
    let (registry, resolver) = match run_domains(domains) {
        Ok(p) => p,
        Err(e) => {
            return Err(e);
        },
    };
    let ts = resolver.resolved_or(fallback_ts);
    let points = registry_to_metric_points(&registry, ts);
    encode_batch(&points, scope, encoding)
}

/// One run using the wall clock as the fallback: if no domain produced a
/// record, the run timestamp is the current instant, truncated to whole
/// seconds. Of the clock's value nothing is promised; everything else is
/// the same pure transform as `run_with_timestamp`.
pub fn run(domains: &Vec<DomainInput>, scope: &ScopeInfo, encoding: PayloadEncoding) -> (r: Result<
    (Vec<u8>, String),
    MetricsError,
>)
    ensures
        match spec_run_domains(
            Seq::empty(),
            None,
            domains_view(domains@),
            domains@.len() as int,
        ) {
            Ok((fams, resolved)) => exists|ts: u64|
                (resolved matches Some(t) ==> ts == t) && (match #[trigger] spec_encode_batch(
                    spec_convert(fams, ts),
                    scope@,
                    encoding,
                ) {
                    Ok((bytes, ct)) => r matches Ok(p) && p.0@ == bytes && p.1@ == ct,
                    Err(e) => r == Err::<(Vec<u8>, String), MetricsError>(e),
                }),
            Err(e) => r == Err::<(Vec<u8>, String), MetricsError>(e),
        },
{
    let (registry, resolver) = match run_domains(domains) {
        Ok(p) => p,
        Err(e) => {
            return Err(e);
        },
    };
    let ts = resolver.resolve();
    let points = registry_to_metric_points(&registry, ts);
    let r = encode_batch(&points, scope, encoding);
    proof {
        let ghost_ts = ts;
        assert((resolver@ matches Some(t) ==> ghost_ts == t) && (match spec_encode_batch(
            spec_convert(registry@, ghost_ts),
            scope@,
            encoding,
        ) {
            Ok((bytes, ct)) => r matches Ok(p) && p.0@ == bytes && p.1@ == ct,
            Err(e) => r == Err::<(Vec<u8>, String), MetricsError>(e),
        }));
    }
    r
}

/// Determinism: the run's payload is a pure function of the domain inputs,
/// the run timestamp, the scope, and the chosen encoding — equal inputs
/// give byte-identical output, on every invocation.
pub proof fn lemma_pipeline_deterministic(
    d1: Seq<DomainInputModel>,
    d2: Seq<DomainInputModel>,
    fallback_ts: u64,
    s1: ScopeInfoModel,
    s2: ScopeInfoModel,
    encoding: PayloadEncoding,
)
    requires
        d1 == d2,
        s1 == s2,
    ensures
        spec_pipeline(d1, fallback_ts, s1, encoding) == spec_pipeline(d2, fallback_ts, s2, encoding),
{
}

} // verus!
