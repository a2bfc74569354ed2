//! FreeBSD packages, as a mirror lists them and as they are reported.

use crate::text::{copy_text, text_of};
use crate::time::{date_time_parsed, point, time_of, Timestamp};
use crate::views;
use vstd::prelude::*;

verus! {

/// The notation of build times: `2025-10-24T19:14:30+0000`, without a colon in the time zone.
pub const BUILD_TIMESTAMP_FORMAT: &'static str = "%Y-%m-%dT%H:%M:%S%z";

/// What the builder has noted of a package.
#[derive(Debug, Clone)]
pub struct FreeBSDPkgAnnotations {
    pub ports_top_git_hash: Option<String>,
    pub build_timestamp: Option<String>,
}

/// A package of a mirror's list.
#[derive(Debug)]
pub struct FreeBSDPkg {
    pub name: String,
    pub origin: String,
    pub version: String,
    pub arch: String,
    pub annotations: Option<FreeBSDPkgAnnotations>,
}

#[verifier::ext_equal]
pub struct FreeBSDPkgView {
    pub name: Seq<char>,
    pub origin: Seq<char>,
    pub version: Seq<char>,
    pub arch: Seq<char>,
    pub git_hash: Option<Seq<char>>,
    pub build_timestamp: Option<Seq<char>>,
}

impl View for FreeBSDPkg {
    type V = FreeBSDPkgView;

    open spec fn view(&self) -> FreeBSDPkgView {
        FreeBSDPkgView {
            name: self.name@,
            origin: self.origin@,
            version: self.version@,
            arch: self.arch@,
            git_hash: match self.annotations {
                Some(annotations) => text_of(annotations.ports_top_git_hash),
                None => None,
            },
            build_timestamp: match self.annotations {
                Some(annotations) => text_of(annotations.build_timestamp),
                None => None,
            },
        }
    }
}

impl Clone for FreeBSDPkg {
    fn clone(&self) -> (r: FreeBSDPkg)
        ensures
            r@ == self@,
    {
        let annotations = match &self.annotations {
            Some(annotations) => Some(
                FreeBSDPkgAnnotations {
                    ports_top_git_hash: copy_text(&annotations.ports_top_git_hash),
                    build_timestamp: copy_text(&annotations.build_timestamp),
                },
            ),
            None => None,
        };
        FreeBSDPkg {
            name: self.name.clone(),
            origin: self.origin.clone(),
            version: self.version.clone(),
            arch: self.arch.clone(),
            annotations,
        }
    }
}

impl FreeBSDPkg {
    /// The name by which packages are selected.
    pub fn pkg_name(&self) -> (r: &str)
        ensures
            r@ == self.name@,
    {
        self.name.as_str()
    }

    /// Whether the package is one of the given maintainers'. The list does not say who
    /// maintains a package, so it never is.
    pub fn by_maintainer(&self, maintainers: &[String]) -> (r: bool)
        ensures
            !r,
    {
        let _ = maintainers;
        false
    }
}

/// A release and architecture on a mirror.
#[derive(Debug)]
pub struct Site {
    pub source: String,
    pub release: String,
    pub architecture: String,
}

#[verifier::ext_equal]
pub struct SiteView {
    pub source: Seq<char>,
    pub release: Seq<char>,
    pub architecture: Seq<char>,
}

impl View for Site {
    type V = SiteView;

    open spec fn view(&self) -> SiteView {
        SiteView {
            source: self.source@,
            release: self.release@,
            architecture: self.architecture@,
        }
    }
}

impl SiteView {
    /// The directory of the release and architecture.
    pub open spec fn directory(self) -> Seq<char> {
        self.source + "/FreeBSD:"@ + self.release + ":"@ + self.architecture + "/latest/"@
    }

    /// Where the package list is.
    pub open spec fn packagesite_url(self) -> Seq<char> {
        self.directory() + "packagesite.pkg"@
    }

    /// Where a package is.
    pub open spec fn pkg_url(self, name: Seq<char>, version: Seq<char>) -> Seq<char> {
        self.directory() + "All/"@ + name + "-"@ + version + ".pkg"@
    }
}

impl Site {
    /// The directory of the release and architecture.
    fn directory(&self) -> (r: String)
        ensures
            r@ == self@.directory(),
    {
        let mut url = self.source.clone();
        url.append("/FreeBSD:");
        url.append(self.release.as_str());
        url.append(":");
        url.append(self.architecture.as_str());
        url.append("/latest/");
        url
    }

    /// Where the package list is.
    pub fn packagesite_url(&self) -> (r: String)
        ensures
            r@ == self@.packagesite_url(),
    {
        let mut url = self.directory();
        url.append("packagesite.pkg");
        url
    }

    /// Where a package is.
    pub fn pkg_url(&self, name: &str, version: &str) -> (r: String)
        ensures
            r@ == self@.pkg_url(name@, version@),
    {
        let mut url = self.directory();
        url.append("All/");
        url.append(name);
        url.append("-");
        url.append(version);
        url.append(".pkg");
        url
    }
}

/// What is known of a package: where it is, when it was built and from which commit of the
/// ports tree.
#[derive(Debug)]
pub struct PackageInfo {
    pub pkg: FreeBSDPkg,
    pub pkg_url: String,
    pub build_timestamp: Option<Timestamp>,
    pub git_hash: Option<String>,
}

#[verifier::ext_equal]
pub struct PackageInfoView {
    pub pkg: FreeBSDPkgView,
    pub pkg_url: Seq<char>,
    pub build_timestamp: Option<(int, int)>,
    pub git_hash: Option<Seq<char>>,
}

impl View for PackageInfo {
    type V = PackageInfoView;

    open spec fn view(&self) -> PackageInfoView {
        PackageInfoView {
            pkg: self.pkg@,
            pkg_url: self.pkg_url@,
            build_timestamp: time_of(self.build_timestamp),
            git_hash: text_of(self.git_hash),
        }
    }
}

/// What is known of a package that was built at the given time.
pub open spec fn info_of(
    site: SiteView,
    pkg: FreeBSDPkgView,
    build_timestamp: Option<(int, int)>,
) -> PackageInfoView {
    PackageInfoView {
        pkg,
        pkg_url: site.pkg_url(pkg.name, pkg.version),
        build_timestamp,
        git_hash: pkg.git_hash,
    }
}

/// When a package was built, if the builder has noted a time that can be read.
pub open spec fn build_time(pkg: FreeBSDPkgView) -> Option<(int, int)> {
    match pkg.build_timestamp {
        Some(text) => point(date_time_parsed(text, BUILD_TIMESTAMP_FORMAT@)),
        None => None,
    }
}

/// What is known of a package that was built at the given time.
pub fn package_info(site: &Site, pkg: FreeBSDPkg, build_timestamp: Option<Timestamp>) -> (r:
    PackageInfo)
    ensures
        r@ == info_of(site@, pkg@, time_of(build_timestamp)),
{
    let pkg_url = site.pkg_url(pkg.name.as_str(), pkg.version.as_str());
    let git_hash = match &pkg.annotations {
        Some(annotations) => copy_text(&annotations.ports_top_git_hash),
        None => None,
    };
    PackageInfo { pkg, pkg_url, build_timestamp, git_hash }
}

/// When a package was built, if the builder has noted a time that can be read.
pub fn build_timestamp(pkg: &FreeBSDPkg) -> (r: Option<Timestamp>)
    ensures
        time_of(r) == build_time(pkg@),
{
    match &pkg.annotations {
        Some(annotations) => match &annotations.build_timestamp {
            Some(text) => {
                proof {
                    reveal_strlit("%Y-%m-%dT%H:%M:%S%z");
                }
                Timestamp::parse(text.as_str(), BUILD_TIMESTAMP_FORMAT)
            },
            None => None,
        },
        None => None,
    }
}

// ---------------------------------------------------------------------------
// Reports
// ---------------------------------------------------------------------------

/// A binary package, as it is reported.
#[derive(Debug)]
pub struct BinaryPackageReport {
    pub name: String,
    pub version: String,
    pub architecture: String,
    pub url: String,
}

/// A source package, as it is reported.
#[derive(Debug)]
pub struct SourcePackageReport {
    pub name: String,
    pub version: String,
    pub url: String,
    pub artifacts: Vec<BinaryPackageReport>,
    pub fbsd_ports_top_git_hash: Option<String>,
    pub fbsd_build_timestamp: Option<Timestamp>,
    pub fbsd_ports_top_git_timestamp: Option<Timestamp>,
}

/// The packages of a release and architecture, as they are reported.
#[derive(Debug)]
pub struct PackageReport {
    pub distribution: String,
    pub release: Option<String>,
    pub component: Option<String>,
    pub architecture: String,
    pub packages: Vec<SourcePackageReport>,
}

#[verifier::ext_equal]
pub struct BinaryPackageReportView {
    pub name: Seq<char>,
    pub version: Seq<char>,
    pub architecture: Seq<char>,
    pub url: Seq<char>,
}

#[verifier::ext_equal]
pub struct SourcePackageReportView {
    pub name: Seq<char>,
    pub version: Seq<char>,
    pub url: Seq<char>,
    pub artifacts: Seq<BinaryPackageReportView>,
    pub fbsd_ports_top_git_hash: Option<Seq<char>>,
    pub fbsd_build_timestamp: Option<(int, int)>,
    pub fbsd_ports_top_git_timestamp: Option<(int, int)>,
}

#[verifier::ext_equal]
pub struct PackageReportView {
    pub distribution: Seq<char>,
    pub release: Option<Seq<char>>,
    pub component: Option<Seq<char>>,
    pub architecture: Seq<char>,
    pub packages: Seq<SourcePackageReportView>,
}

impl View for BinaryPackageReport {
    type V = BinaryPackageReportView;

    open spec fn view(&self) -> BinaryPackageReportView {
        BinaryPackageReportView {
            name: self.name@,
            version: self.version@,
            architecture: self.architecture@,
            url: self.url@,
        }
    }
}

impl View for SourcePackageReport {
    type V = SourcePackageReportView;

    open spec fn view(&self) -> SourcePackageReportView {
        SourcePackageReportView {
            name: self.name@,
            version: self.version@,
            url: self.url@,
            artifacts: views(self.artifacts@),
            fbsd_ports_top_git_hash: text_of(self.fbsd_ports_top_git_hash),
            fbsd_build_timestamp: time_of(self.fbsd_build_timestamp),
            fbsd_ports_top_git_timestamp: time_of(self.fbsd_ports_top_git_timestamp),
        }
    }
}

impl View for PackageReport {
    type V = PackageReportView;

    open spec fn view(&self) -> PackageReportView {
        PackageReportView {
            distribution: self.distribution@,
            release: text_of(self.release),
            component: text_of(self.component),
            architecture: self.architecture@,
            packages: views(self.packages@),
        }
    }
}

/// The report of a package whose commit was made at the given time.
pub open spec fn source_report(
    info: PackageInfoView,
    commit: Option<(int, int)>,
) -> SourcePackageReportView {
    SourcePackageReportView {
        name: info.pkg.origin,
        version: info.pkg.version,
        url: info.pkg_url,
        artifacts: seq![
            BinaryPackageReportView {
                name: info.pkg.name,
                version: info.pkg.version,
                architecture: info.pkg.arch,
                url: info.pkg_url,
            },
        ],
        fbsd_ports_top_git_hash: info.git_hash,
        fbsd_build_timestamp: info.build_timestamp,
        fbsd_ports_top_git_timestamp: commit,
    }
}

/// The report of a package whose commit was made at the given time.
pub fn report_package(info: &PackageInfo, commit: Option<Timestamp>) -> (r: SourcePackageReport)
    ensures
        r@ == source_report(info@, time_of(commit)),
{
    let mut artifacts: Vec<BinaryPackageReport> = Vec::new();
    artifacts.push(
        BinaryPackageReport {
            name: info.pkg.name.clone(),
            version: info.pkg.version.clone(),
            architecture: info.pkg.arch.clone(),
            url: info.pkg_url.clone(),
        },
    );
    proof {
        assert(views(artifacts@) =~= source_report(info@, time_of(commit)).artifacts);
    }
    SourcePackageReport {
        name: info.pkg.origin.clone(),
        version: info.pkg.version.clone(),
        url: info.pkg_url.clone(),
        artifacts,
        fbsd_ports_top_git_hash: copy_text(&info.git_hash),
        fbsd_build_timestamp: info.build_timestamp,
        fbsd_ports_top_git_timestamp: commit,
    }
}

} // verus!
