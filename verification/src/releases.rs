//! Release metadata as the publisher's index describes it, and what the
//! remote listing shows of it.

use crate::fetch::{check_status, is_success};
use crate::text::{same_text, texts};
use vstd::prelude::*;

verus! {

/// The index of release channels.
#[derive(Debug)]
pub struct ReleaseIndex {
    pub releases_index: Vec<ReleaseChannel>,
}

/// One release channel of the index.
#[derive(Debug)]
pub struct ReleaseChannel {
    pub channel_version: Option<String>,
    pub latest_release: Option<String>,
    /// `"lts"` or `"sts"`.
    pub release_type: Option<String>,
    /// Where the channel's own list of releases is published.
    pub releases_json: String,
}

/// The releases of one channel.
#[derive(Debug)]
pub struct ChannelReleases {
    pub releases: Vec<Release>,
}

/// One release of a channel.
#[derive(Debug)]
pub struct Release {
    pub release_date: Option<String>,
    pub version: Option<String>,
    pub lts: Option<bool>,
    pub security: Option<bool>,
    pub cve_list: Vec<CVE>,
    pub release_notes: Option<String>,
    pub runtime: Option<DotnetRuntime>,
    pub sdk: Option<DotnetSdk>,
    pub sdks: Vec<DotnetSdk>,
    pub aspnetcore_runtime: Option<AspNetCoreRuntime>,
    pub windowsdesktop: Option<WindowsDesktop>,
}

/// A vulnerability that a release fixes.
#[derive(Debug)]
pub struct CVE {
    pub cve_id: String,
    pub cve_url: String,
}

/// One downloadable file of a release.
#[derive(Debug)]
pub struct FileInfo {
    pub name: String,
    pub rid: Option<String>,
    pub url: String,
    pub hash: Option<String>,
    pub akams: Option<String>,
}

/// The runtime of a release.
#[derive(Debug)]
pub struct DotnetRuntime {
    pub version: Option<String>,
    pub version_display: Option<String>,
    pub vs_version: Option<String>,
    pub vs_mac_version: Option<String>,
    pub files: Vec<FileInfo>,
}

/// An SDK of a release.
#[derive(Debug)]
pub struct DotnetSdk {
    pub version: Option<String>,
    pub version_display: Option<String>,
    pub runtime_version: Option<String>,
    pub vs_version: Option<String>,
    pub vs_mac_version: Option<String>,
    pub vs_support: Option<String>,
    pub vs_mac_support: Option<String>,
    pub csharp_version: Option<String>,
    pub fsharp_version: Option<String>,
    pub vb_version: Option<String>,
    pub files: Vec<FileInfo>,
}

/// The ASP.NET Core runtime of a release.
#[derive(Debug)]
pub struct AspNetCoreRuntime {
    pub version: Option<String>,
    pub version_display: Option<String>,
    pub version_aspnetcoremodule: Vec<String>,
    pub vs_version: Option<String>,
    pub files: Vec<FileInfo>,
}

/// The Windows desktop runtime of a release.
#[derive(Debug)]
pub struct WindowsDesktop {
    pub version: Option<String>,
    pub version_display: Option<String>,
    pub files: Vec<FileInfo>,
}

/// The list that the metadata gives, or the empty list where it gives none.
pub fn list_or_empty<T>(list: Option<Vec<T>>) -> (r: Vec<T>)
    ensures
        r@ == (match list {
            Some(v) => v@,
            None => Seq::<T>::empty(),
        }),
{
    match list {
        Some(v) => v,
        None => Vec::new(),
    }
}

/// The text shown for a value that the metadata may leave out.
pub open spec fn label_of(value: Option<String>) -> Seq<char> {
    match value {
        Some(text) => text@,
        None => "unknown"@,
    }
}

/// The text shown for a value that the metadata may leave out.
pub fn label(value: &Option<String>) -> (r: &str)
    ensures
        r@ == label_of(*value),
{
    match value {
        Some(text) => text.as_str(),
        None => "unknown",
    }
}

impl ReleaseChannel {
    /// Whether the listing shows this channel: every channel, or only the
    /// long-term-support ones where `lts_only` is set.
    pub open spec fn listed(&self, lts_only: bool) -> bool {
        !lts_only || label_of(self.release_type) == "lts"@
    }

    /// Decides whether the listing shows this channel.
    pub fn is_listed(&self, lts_only: bool) -> (r: bool)
        ensures
            r == self.listed(lts_only),
    {
        !lts_only || same_text(label(&self.release_type), "lts")
    }
}

/// What the listing asks of one channel: the two lines that announce it and
/// the address of its releases.
#[derive(Debug, PartialEq, Eq)]
pub struct ChannelQuery {
    /// `Channel: <version> (<type>)`.
    pub heading: String,
    /// `Fetching releases from: <address>`.
    pub notice: String,
    /// Where the channel's releases are published.
    pub url: String,
}

/// What a [`ChannelQuery`] stands for in contracts.
pub struct QueryModel {
    pub heading: Seq<char>,
    pub notice: Seq<char>,
    pub url: Seq<char>,
}

impl View for ChannelQuery {
    type V = QueryModel;

    open spec fn view(&self) -> QueryModel {
        QueryModel { heading: self.heading@, notice: self.notice@, url: self.url@ }
    }
}

impl DeepView for ChannelQuery {
    type V = QueryModel;

    open spec fn deep_view(&self) -> QueryModel {
        self@
    }
}

/// The query for a channel.
pub open spec fn query_of(channel: ReleaseChannel) -> QueryModel {
    QueryModel {
        heading: "Channel: "@ + label_of(channel.channel_version) + " ("@ + label_of(
            channel.release_type,
        ) + ")"@,
        notice: "Fetching releases from: "@ + channel.releases_json@,
        url: channel.releases_json@,
    }
}

/// The queries of a listing: one for each channel that it shows, in the
/// order of the index.
pub open spec fn queries_of(channels: Seq<ReleaseChannel>, lts_only: bool) -> Seq<QueryModel> {
    channels.filter(|c: ReleaseChannel| c.listed(lts_only)).map_values(
        |c: ReleaseChannel| query_of(c),
    )
}

/// The query for one channel.
pub fn channel_query(channel: &ReleaseChannel) -> (query: ChannelQuery)
    ensures
        query@ == query_of(*channel),
{
    let mut heading = "Channel: ".to_owned();
    heading.append(label(&channel.channel_version));
    heading.append(" (");
    heading.append(label(&channel.release_type));
    heading.append(")");
    let mut notice = "Fetching releases from: ".to_owned();
    notice.append(channel.releases_json.as_str());
    ChannelQuery { heading, notice, url: channel.releases_json.clone() }
}

/// The queries of a listing of `index`.
pub fn channel_queries(index: &ReleaseIndex, lts_only: bool) -> (queries: Vec<ChannelQuery>)
    ensures
        queries.deep_view() == queries_of(index.releases_index@, lts_only),
{
    let ghost channels = index.releases_index@;
    let ghost shown = |c: ReleaseChannel| c.listed(lts_only);
    let ghost ask = |c: ReleaseChannel| query_of(c);
    let mut queries: Vec<ChannelQuery> = Vec::new();
    let mut i: usize = 0;
    proof {
        reveal(Seq::filter);
        assert(channels.take(0).filter(shown).map_values(ask) =~= queries.deep_view());
    }
    while i < index.releases_index.len()
        invariant
            i <= index.releases_index.len(),
            channels == index.releases_index@,
            shown == |c: ReleaseChannel| c.listed(lts_only),
            ask == |c: ReleaseChannel| query_of(c),
            queries.deep_view() =~= channels.take(i as int).filter(shown).map_values(ask),
        decreases index.releases_index.len() - i,
    {
        let channel = &index.releases_index[i];
        proof {
            assert(channels.take(i + 1) =~= channels.take(i as int).push(channels[i as int]));
            channels.take(i as int).lemma_filter_push(channels[i as int], shown);
        }
        if channel.is_listed(lts_only) {
            let query = channel_query(channel);
            proof {
                let kept = channels.take(i as int).filter(shown);
                assert(kept.push(*channel).map_values(ask) =~= kept.map_values(ask).push(query@));
            }
            queries.push(query);
        }
        i += 1;
    }
    assert(channels.take(index.releases_index.len() as int) =~= channels);
    queries
}

/// The lines of a channel's releases: the version of each, in order.
pub fn release_labels(releases: &ChannelReleases) -> (labels: Vec<String>)
    ensures
        texts(labels@) == releases.releases@.map_values(|r: Release| label_of(r.version)),
{
    let mut labels: Vec<String> = Vec::new();
    let mut i: usize = 0;
    while i < releases.releases.len()
        invariant
            i <= releases.releases.len(),
            labels.len() == i,
            forall|k: int| 0 <= k < i ==> (#[trigger] labels[k])@ == label_of(
                releases.releases[k].version,
            ),
        decreases releases.releases.len() - i,
    {
        labels.push(label(&releases.releases[i].version).to_owned());
        i += 1;
    }
    assert(texts(labels@) =~= releases.releases@.map_values(|r: Release| label_of(r.version)));
    labels
}

/// The line that opens the listing.
pub fn listing_heading() -> (r: &'static str)
    ensures
        r@ == "Remote .NET SDK versions available:"@,
{
    "Remote .NET SDK versions available:"
}

/// What follows a download in the listing.
#[derive(Debug, PartialEq, Eq, Clone, Copy)]
pub enum AfterFetch {
    /// Read what was downloaded.
    Read,
    /// Report the status and go on with the next channel.
    SkipChannel,
    /// Give the listing up, with the status as the cause.
    Abort,
}

/// What follows the download of the index: without the index there is no
/// listing.
pub fn after_index_fetch(status: u16) -> (r: AfterFetch)
    ensures
        r == (if is_success(status) {
            AfterFetch::Read
        } else {
            AfterFetch::Abort
        }),
{
    match check_status(status) {
        Ok(_) => AfterFetch::Read,
        Err(_) => AfterFetch::Abort,
    }
}

/// What follows the download of one channel's releases: a channel that
/// cannot be had is left out, and the listing goes on.
pub fn after_channel_fetch(status: u16) -> (r: AfterFetch)
    ensures
        r == (if is_success(status) {
            AfterFetch::Read
        } else {
            AfterFetch::SkipChannel
        }),
{
    match check_status(status) {
        Ok(_) => AfterFetch::Read,
        Err(_) => AfterFetch::SkipChannel,
    }
}

} // verus!
