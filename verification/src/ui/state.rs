//! Report sources, the views of the popup, and the per-session report cache.
use vstd::prelude::*;
use crate::config::SunixConfig;
use crate::model::{UpdateReport, UpdateReportView};

verus! {

#[derive(Clone, Copy, Debug, PartialEq, Eq, Structural)]
pub enum ReportSource {
    HomeManager,
    NixOS,
    Demo,
}

#[derive(Clone, Copy, Debug, PartialEq, Eq, Structural)]
pub enum ViewState {
    Chooser,
    Loading,
    Report,
    Message,
}

pub open spec fn source_label(s: ReportSource) -> Seq<char> {
    match s {
        ReportSource::HomeManager => "Home Manager"@,
        ReportSource::NixOS => "NixOS"@,
        ReportSource::Demo => "Demo"@,
    }
}

impl ReportSource {
    pub fn label(self) -> (r: &'static str)
        ensures
            r@ == source_label(self),
    {
        match self {
            ReportSource::HomeManager => "Home Manager",
            ReportSource::NixOS => "NixOS",
            ReportSource::Demo => "Demo",
        }
    }

    /// The flake a source builds.
    pub fn flake(self, config: &SunixConfig) -> (r: &str)
        ensures
            r@ == match self {
                ReportSource::HomeManager => config.home_flake@,
                ReportSource::NixOS => config.nixos_flake@,
                ReportSource::Demo => "demo"@,
            },
    {
        match self {
            ReportSource::HomeManager => config.home_flake.as_str(),
            ReportSource::NixOS => config.nixos_flake.as_str(),
            ReportSource::Demo => "demo",
        }
    }

    /// The message shown when the worker building the report went away.
    pub fn disconnected_message(self) -> (r: &'static str)
        ensures
            r@ == source_label(self) + " update report worker error"@,
    {
        proof {
            reveal_strlit("Home Manager");
            reveal_strlit("NixOS");
            reveal_strlit("Demo");
            reveal_strlit(" update report worker error");
            reveal_strlit("Home Manager update report worker error");
            reveal_strlit("NixOS update report worker error");
            reveal_strlit("Demo update report worker error");
        }
        match self {
            ReportSource::HomeManager => {
                assert("Home Manager update report worker error"@ =~= "Home Manager"@
                    + " update report worker error"@);
                "Home Manager update report worker error"
            },
            ReportSource::NixOS => {
                assert("NixOS update report worker error"@ =~= "NixOS"@
                    + " update report worker error"@);
                "NixOS update report worker error"
            },
            ReportSource::Demo => {
                assert("Demo update report worker error"@ =~= "Demo"@
                    + " update report worker error"@);
                "Demo update report worker error"
            },
        }
    }
}

/// Reports already built in this session, kept per source; the demo
/// report is never cached.
pub struct ReportCache {
    home: Option<UpdateReport>,
    nixos: Option<UpdateReport>,
}

pub open spec fn report_view(r: Option<UpdateReport>) -> Option<UpdateReportView> {
    match r {
        Some(x) => Some(x@),
        None => None,
    }
}

impl ReportCache {
    /// The report cached for a source, as a mathematical value.
    pub closed spec fn cached(&self, source: ReportSource) -> Option<UpdateReportView> {
        match source {
            ReportSource::HomeManager => report_view(self.home),
            ReportSource::NixOS => report_view(self.nixos),
            ReportSource::Demo => None,
        }
    }

    pub fn new() -> (c: Self)
        ensures
            forall|s: ReportSource| c.cached(s) is None,
    {
        ReportCache { home: None, nixos: None }
    }

    /// The report cached for `source`, if any.
    pub fn cached_report(&self, source: ReportSource) -> (r: Option<&UpdateReport>)
        ensures
            match r {
                Some(x) => self.cached(source) == Some(x@),
                None => self.cached(source) is None,
            },
    {
        match source {
            ReportSource::HomeManager => self.home.as_ref(),
            ReportSource::NixOS => self.nixos.as_ref(),
            ReportSource::Demo => None,
        }
    }

    /// Keeps `report` for `source` (nothing is kept for the demo).
    pub fn cache_report(&mut self, source: ReportSource, report: UpdateReport)
        ensures
            final(self).cached(source) == if source == ReportSource::Demo {
                None
            } else {
                Some(report@)
            },
            forall|s: ReportSource| s != source ==> final(self).cached(s) == old(self).cached(s),
    {
        match source {
            ReportSource::HomeManager => {
                self.home = Some(report);
            },
            ReportSource::NixOS => {
                self.nixos = Some(report);
            },
            ReportSource::Demo => {},
        }
    }
}

/// The demo report is never served from the cache.
pub proof fn lemma_demo_never_cached(c: ReportCache)
    ensures
        c.cached(ReportSource::Demo) is None,
{
}

} // verus!
