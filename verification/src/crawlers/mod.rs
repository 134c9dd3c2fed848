//! The sources of announcements, one module each, and the list of them all.
pub mod base;
pub mod etri;
pub mod iitp;
pub mod iris;
pub mod kisa;
pub mod kisti;
pub mod krit;
pub mod msit;
pub mod nst;
pub mod ntis;

use crate::crawlers::base::{tagged, Crawler};
use crate::models::AnnouncementView;
use crate::crawlers::etri::EtriCrawler;
use crate::crawlers::iitp::IitpCrawler;
use crate::crawlers::iris::IrisCrawler;
use crate::crawlers::kisa::KisaCrawler;
use crate::crawlers::kisti::KistiCrawler;
use crate::crawlers::krit::KritCrawler;
use crate::crawlers::msit::MsitCrawler;
use crate::crawlers::nst::NstCrawler;
use crate::crawlers::ntis::NtisCrawler;
use vstd::prelude::*;

verus! {

/// One of the sources.
pub enum AnyCrawler {
    Ntis(NtisCrawler),
    Kisa(KisaCrawler),
    Iitp(IitpCrawler),
    Kisti(KistiCrawler),
    Nst(NstCrawler),
    Krit(KritCrawler),
    Iris(IrisCrawler),
    Etri(EtriCrawler),
    Msit(MsitCrawler),
}

impl Crawler for AnyCrawler {
    open spec fn name_spec(&self) -> Seq<char> {
        match self {
            AnyCrawler::Ntis(c) => c.name_spec(),
            AnyCrawler::Kisa(c) => c.name_spec(),
            AnyCrawler::Iitp(c) => c.name_spec(),
            AnyCrawler::Kisti(c) => c.name_spec(),
            AnyCrawler::Nst(c) => c.name_spec(),
            AnyCrawler::Krit(c) => c.name_spec(),
            AnyCrawler::Iris(c) => c.name_spec(),
            AnyCrawler::Etri(c) => c.name_spec(),
            AnyCrawler::Msit(c) => c.name_spec(),
        }
    }

    open spec fn timeout_spec(&self) -> u64 {
        match self {
            AnyCrawler::Ntis(c) => c.timeout_spec(),
            AnyCrawler::Kisa(c) => c.timeout_spec(),
            AnyCrawler::Iitp(c) => c.timeout_spec(),
            AnyCrawler::Kisti(c) => c.timeout_spec(),
            AnyCrawler::Nst(c) => c.timeout_spec(),
            AnyCrawler::Krit(c) => c.timeout_spec(),
            AnyCrawler::Iris(c) => c.timeout_spec(),
            AnyCrawler::Etri(c) => c.timeout_spec(),
            AnyCrawler::Msit(c) => c.timeout_spec(),
        }
    }

    fn source_name(&self) -> (r: &'static str) {
        match self {
            AnyCrawler::Ntis(c) => c.source_name(),
            AnyCrawler::Kisa(c) => c.source_name(),
            AnyCrawler::Iitp(c) => c.source_name(),
            AnyCrawler::Kisti(c) => c.source_name(),
            AnyCrawler::Nst(c) => c.source_name(),
            AnyCrawler::Krit(c) => c.source_name(),
            AnyCrawler::Iris(c) => c.source_name(),
            AnyCrawler::Etri(c) => c.source_name(),
            AnyCrawler::Msit(c) => c.source_name(),
        }
    }

    fn timeout(&self) -> (r: u64) {
        match self {
            AnyCrawler::Ntis(c) => c.timeout(),
            AnyCrawler::Kisa(c) => c.timeout(),
            AnyCrawler::Iitp(c) => c.timeout(),
            AnyCrawler::Kisti(c) => c.timeout(),
            AnyCrawler::Nst(c) => c.timeout(),
            AnyCrawler::Krit(c) => c.timeout(),
            AnyCrawler::Iris(c) => c.timeout(),
            AnyCrawler::Etri(c) => c.timeout(),
            AnyCrawler::Msit(c) => c.timeout(),
        }
    }
}

/// The names of the sources, in the order in which they are crawled.
pub open spec fn source_order() -> Seq<Seq<char>> {
    seq!["NTIS"@, "KISA"@, "IITP"@, "KISTI"@, "NST"@, "KRIT"@, "IRIS"@, "ETRI"@, "MSIT"@]
}

/// The prefixes of the sources' ids, in the order of `source_order`.
pub open spec fn id_prefixes() -> Seq<Seq<char>> {
    seq![
        "ntis_"@,
        "kisa_"@,
        "iitp_"@,
        "kisti_"@,
        "nst_"@,
        "krit_"@,
        "iris_"@,
        "etri_"@,
        "msit_"@,
    ]
}

/// Announcements reported by two different sources never share an id, so the
/// ids already seen can be kept in one set for all sources.
pub proof fn lemma_sources_never_share_ids(
    a: AnnouncementView,
    b: AnnouncementView,
    i: int,
    j: int,
)
    requires
        0 <= i < 9,
        0 <= j < 9,
        i != j,
        tagged(a, source_order()[i], id_prefixes()[i]),
        tagged(b, source_order()[j], id_prefixes()[j]),
    ensures
        a.id != b.id,
{
    reveal_strlit("ntis_");
    reveal_strlit("kisa_");
    reveal_strlit("iitp_");
    reveal_strlit("kisti_");
    reveal_strlit("nst_");
    reveal_strlit("krit_");
    reveal_strlit("iris_");
    reveal_strlit("etri_");
    reveal_strlit("msit_");
    let p = id_prefixes()[i];
    let q = id_prefixes()[j];
    assert(p.len() >= 4 && q.len() >= 4);
    if a.id == b.id {
        assert forall|k: int| 0 <= k < 4 implies p[k] == q[k] by {
            assert(a.id.take(p.len() as int)[k] == a.id[k]);
            assert(b.id.take(q.len() as int)[k] == b.id[k]);
        }
        assert(p[0] == q[0] && p[1] == q[1] && p[2] == q[2] && p[3] == q[3]);
        assert(false);
    }
}

/// Every source, in the order in which they are crawled, each with the given
/// request timeout.
pub fn build_crawlers(timeout: u64) -> (r: Vec<AnyCrawler>)
    ensures
        r@.len() == source_order().len(),
        forall|i: int| 0 <= i < r@.len() ==> #[trigger] r@[i].name_spec() == source_order()[i],
        forall|i: int| 0 <= i < r@.len() ==> #[trigger] r@[i].timeout_spec() == timeout,
{
    let mut r: Vec<AnyCrawler> = Vec::new();
    r.push(AnyCrawler::Ntis(NtisCrawler::new(timeout)));
    r.push(AnyCrawler::Kisa(KisaCrawler::new(timeout)));
    r.push(AnyCrawler::Iitp(IitpCrawler::new(timeout)));
    r.push(AnyCrawler::Kisti(KistiCrawler::new(timeout)));
    r.push(AnyCrawler::Nst(NstCrawler::new(timeout)));
    r.push(AnyCrawler::Krit(KritCrawler::new(timeout)));
    r.push(AnyCrawler::Iris(IrisCrawler::new(timeout)));
    r.push(AnyCrawler::Etri(EtriCrawler::new(timeout)));
    r.push(AnyCrawler::Msit(MsitCrawler::new(timeout)));
    r
}

} // verus!
