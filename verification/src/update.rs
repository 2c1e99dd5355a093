//! Automatic updates: which GitHub release to install, how a downloaded or
//! shared installer is verified, and which setup files on the LAN share are
//! candidates, newest first.

use vstd::prelude::*;
use vstd::utf8::encode_utf8;
use crate::digest::{digest_matches, sha256_label};
use crate::text::{chars_of, extend_chars, has_prefix, starts_with, string_from_chars};
use crate::encoding::{spec_to_lowercase, to_lowercase};
use crate::text::{
    decimal, decimal_chars, ends_with, has_suffix, is_ascii_digit, lemma_decimal,
    lemma_digits_exclude, lemma_parse_decimal, lemma_split_on_prefix, lemma_split_on_whole,
    spec_parse_u32, split_on,
};
use crate::version::{
    current_version_tuple, parse_smb_filename_version, spec_current_version_tuple, spec_parse_version,
    spec_parse_smb_filename_version, spec_update_is_newer, trim_leading_v, update_is_newer,
    version4_gt, version4_newer, Version4, spec_current_version, CURRENT_VERSION,
};

verus! {

/// Largest installer accepted from GitHub or the share: 16 MiB.
pub const MAX_INSTALLER_BYTES: usize = 16777216;

/// The only accepted download URL prefix.
pub const DOWNLOAD_URL_PREFIX: &'static str = "https://github.com/";

/// The release-download path of this repository, below `DOWNLOAD_URL_PREFIX`.
pub const RELEASE_DOWNLOAD_PATH_PREFIX: &'static str =
    "BobanAliBrz/BrojRacunaraAliBrz/releases/download/";

/// The fields of one release asset that the updater reads; a field is `None`
/// when the JSON lacks it or it has another JSON type.
pub struct AssetMetadata {
    pub name: Option<String>,
    pub state: Option<String>,
    pub browser_download_url: Option<String>,
    pub digest: Option<String>,
    pub size: Option<u64>,
}

/// The fields of the latest-release JSON that the updater reads.
pub struct ReleaseMetadata {
    pub tag_name: Option<String>,
    pub assets: Option<Vec<AssetMetadata>>,
}

/// A newer release that can be downloaded and verified.
pub struct ReleaseInfo {
    pub tag: String,
    /// Request path on `github.com`, starting with `/`.
    pub path: String,
    /// `sha256:<64 lower-case hex digits>`.
    pub digest: String,
    pub size: usize,
}

/// What the release API said.
pub enum ReleaseCheck {
    /// GitHub reachable and this binary is current: nothing to do anywhere.
    Current,
    /// GitHub has a newer verified release.
    Available(ReleaseInfo),
    /// GitHub unreachable or unusable: the LAN fallback may still know better.
    Unknown,
}

/// The abstract outcome of a release check.
pub enum ReleaseOutcome {
    Current,
    Available { tag: Seq<char>, path: Seq<char>, digest: Seq<char>, size: nat },
    Unknown,
}

impl View for ReleaseCheck {
    type V = ReleaseOutcome;

    open spec fn view(&self) -> ReleaseOutcome {
        match self {
            ReleaseCheck::Current => ReleaseOutcome::Current,
            ReleaseCheck::Available(info) => ReleaseOutcome::Available {
                tag: info.tag@,
                path: info.path@,
                digest: info.digest@,
                size: info.size as nat,
            },
            ReleaseCheck::Unknown => ReleaseOutcome::Unknown,
        }
    }
}

/// The asset is the uploaded `setup.exe`.
pub open spec fn is_setup_asset(a: AssetMetadata) -> bool {
    &&& a.name matches Some(n) && n@ == "setup.exe"@
    &&& a.state matches Some(s) && s@ == "uploaded"@
}

/// Index of the first uploaded `setup.exe` asset at or after `from`.
pub open spec fn first_setup_asset_from(assets: Seq<AssetMetadata>, from: int) -> Option<int>
    decreases assets.len() - from,
{
    if from < 0 || from >= assets.len() {
        None
    } else if is_setup_asset(assets[from]) {
        Some(from)
    } else {
        first_setup_asset_from(assets, from + 1)
    }
}

/// A digest of the expected form: 71 bytes starting with `sha256:`.
pub open spec fn well_formed_digest(d: Seq<char>) -> bool {
    encode_utf8(d).len() == 71 && has_prefix(d, "sha256:"@)
}

/// An asset size the updater accepts: 1 byte to 16 MiB.
pub open spec fn acceptable_size(size: u64) -> bool {
    0 < size && size <= MAX_INSTALLER_BYTES
}

/// The download URL is on github.com below this repository's release
/// downloads.
pub open spec fn acceptable_url(url: Seq<char>) -> bool {
    has_prefix(url, DOWNLOAD_URL_PREFIX@) && has_prefix(
        url.skip(DOWNLOAD_URL_PREFIX@.len() as int),
        RELEASE_DOWNLOAD_PATH_PREFIX@,
    )
}

/// The request path for a download URL: the URL without its
/// `https://github.com` origin, so it keeps the owner/repo prefix.
pub open spec fn download_path(url: Seq<char>) -> Seq<char> {
    "/"@ + url.skip(DOWNLOAD_URL_PREFIX@.len() as int)
}

/// What the release metadata means for this build. A tag that is not newer
/// answers `Current` before any asset is looked at; every other gap or
/// malformed field answers `Unknown`.
pub open spec fn spec_release_outcome(meta: ReleaseMetadata) -> ReleaseOutcome {
    match meta.tag_name {
        None => ReleaseOutcome::Unknown,
        Some(tag) => if !spec_update_is_newer(tag@) {
            ReleaseOutcome::Current
        } else {
            match meta.assets {
                None => ReleaseOutcome::Unknown,
                Some(assets) => match first_setup_asset_from(assets@, 0) {
                    None => ReleaseOutcome::Unknown,
                    Some(i) => {
                        let a = assets@[i];
                        match (a.browser_download_url, a.digest, a.size) {
                            (Some(url), Some(d), Some(size)) => if well_formed_digest(d@)
                                && acceptable_size(size) && acceptable_url(url@) {
                                ReleaseOutcome::Available {
                                    tag: tag@,
                                    path: download_path(url@),
                                    digest: d@,
                                    size: size as nat,
                                }
                            } else {
                                ReleaseOutcome::Unknown
                            },
                            _ => ReleaseOutcome::Unknown,
                        }
                    },
                },
            }
        },
    }
}

/// Law: whenever the latest release has a tag that does not name a strictly
/// newer version than this build (1.2.4), the answer is `Current`, whatever
/// the assets hold: an unparseable tag, this build's own version, or an
/// older one.
pub proof fn lemma_tag_not_newer_is_current(meta: ReleaseMetadata)
    ensures
        spec_current_version() == Some((1u32, 2u32, 4u32)),
        meta.tag_name matches Some(t) && (spec_parse_version(t@) matches Some(l) ==> (l.0 < 1 || (
        l.0 == 1 && (l.1 < 2 || (l.1 == 2 && l.2 <= 4))))) ==> spec_release_outcome(meta) is Current,
        meta.tag_name matches Some(t) && t@ == CURRENT_VERSION@ ==> spec_release_outcome(meta) is Current,
        meta.tag_name is None ==> spec_release_outcome(meta) is Unknown,
{
    reveal_strlit("1.2.4");
    reveal_strlit(".");
    let c = CURRENT_VERSION@;
    assert(c =~= seq!['1', '.', '2', '.', '4']);
    assert(trim_leading_v(c) == c);
    assert(!seq!['1'].contains('.')) by {
        if seq!['1'].contains('.') {
            let k = choose|k: int| 0 <= k < 1 && seq!['1'][k] == '.';
        }
    }
    assert(!seq!['2'].contains('.')) by {
        if seq!['2'].contains('.') {
            let k = choose|k: int| 0 <= k < 1 && seq!['2'][k] == '.';
        }
    }
    assert(!seq!['4'].contains('.')) by {
        if seq!['4'].contains('.') {
            let k = choose|k: int| 0 <= k < 1 && seq!['4'][k] == '.';
        }
    }
    lemma_split_on_whole(seq!['4'], '.');
    lemma_split_on_prefix(seq!['2'], seq!['4'], '.');
    lemma_split_on_prefix(seq!['1'], seq!['2'] + seq!['.'] + seq!['4'], '.');
    assert(c =~= seq!['1'] + seq!['.'] + (seq!['2'] + seq!['.'] + seq!['4']));
    let parts = split_on(c, '.');
    assert(parts =~= seq![seq!['1'], seq!['2'], seq!['4']]);
    assert(decimal(1) =~= seq!['1']);
    assert(decimal(2) =~= seq!['2']);
    assert(decimal(4) =~= seq!['4']);
    lemma_parse_decimal(1);
    lemma_parse_decimal(2);
    lemma_parse_decimal(4);
    assert(spec_parse_u32(seq!['1']) == Some(1u32));
    assert(spec_parse_u32(seq!['2']) == Some(2u32));
    assert(spec_parse_u32(seq!['4']) == Some(4u32));
}

/// Law: an available release always comes from this repository's release
/// downloads on github.com, is newer than this build, and carries a
/// well-formed SHA-256 digest and a size of at most 16 MiB.
pub proof fn lemma_available_release_trusted(meta: ReleaseMetadata)
    ensures
        spec_release_outcome(meta) matches ReleaseOutcome::Available { tag, path, digest, size }
            ==> {
            &&& spec_update_is_newer(tag)
            &&& has_prefix(path, "/"@ + RELEASE_DOWNLOAD_PATH_PREFIX@)
            &&& well_formed_digest(digest)
            &&& 0 < size <= MAX_INSTALLER_BYTES
        },
{
    if let ReleaseOutcome::Available { tag, path, digest, size } = spec_release_outcome(meta) {
        let assets = meta.assets->0;
        let i = first_setup_asset_from(assets@, 0)->0;
        let url = assets@[i].browser_download_url->0@;
        let rest = url.skip(DOWNLOAD_URL_PREFIX@.len() as int);
        let p = RELEASE_DOWNLOAD_PATH_PREFIX@;
        assert(path == "/"@ + rest);
        assert(has_prefix(rest, p));
        assert(("/"@ + rest).take(("/"@ + p).len() as int) =~= "/"@ + rest.take(p.len() as int));
    }
}

fn find_setup_asset(assets: &Vec<AssetMetadata>) -> (r: Option<usize>)
    ensures
        match r {
            Some(i) => i < assets@.len() && first_setup_asset_from(assets@, 0) == Some(i as int),
            None => first_setup_asset_from(assets@, 0) is None,
        },
{
    let setup = chars_of("setup.exe");
    let uploaded = chars_of("uploaded");
    let mut i: usize = 0;
    while i < assets.len()
        invariant
            i <= assets@.len(),
            setup@ == "setup.exe"@,
            uploaded@ == "uploaded"@,
            first_setup_asset_from(assets@, 0) == first_setup_asset_from(assets@, i as int),
        decreases assets@.len() - i,
    {
        let a = &assets[i];
        let is_setup = match (&a.name, &a.state) {
            (Some(n), Some(s)) => {
                let nc = chars_of(n.as_str());
                let sc = chars_of(s.as_str());
                crate::text::chars_eq(nc.as_slice(), setup.as_slice()) && crate::text::chars_eq(
                    sc.as_slice(),
                    uploaded.as_slice(),
                )
            },
            _ => false,
        };
        if is_setup {
            return Some(i);
        }
        i = i + 1;
    }
    None
}

/// Whether a digest string has the expected `sha256:` form and length.
fn digest_well_formed(d: &str) -> (r: bool)
    ensures
        r == well_formed_digest(d@),
{
    let prefix = chars_of("sha256:");
    let dc = chars_of(d);
    d.as_bytes().len() == 71 && starts_with(dc.as_slice(), prefix.as_slice())
}

/// The request path for an accepted download URL, or `None`.
fn release_download_path(url: &str) -> (r: Option<String>)
    ensures
        match r {
            Some(p) => acceptable_url(url@) && p@ == download_path(url@),
            None => !acceptable_url(url@),
        },
{
    let uc = chars_of(url);
    let origin = chars_of(DOWNLOAD_URL_PREFIX);
    if !starts_with(uc.as_slice(), origin.as_slice()) {
        return None;
    }
    let rest = &uc.as_slice()[origin.len()..uc.len()];
    assert(rest@ =~= url@.skip(DOWNLOAD_URL_PREFIX@.len() as int));
    let repo = chars_of(RELEASE_DOWNLOAD_PATH_PREFIX);
    if !starts_with(rest, repo.as_slice()) {
        return None;
    }
    let mut path = chars_of("/");
    extend_chars(&mut path, rest);
    Some(string_from_chars(path.as_slice()))
}

/// Read the latest-release metadata: which newer release, if any, to install.
pub fn release_check_from_metadata(meta: &ReleaseMetadata) -> (r: ReleaseCheck)
    ensures
        r@ == spec_release_outcome(*meta),
{
    let tag = match &meta.tag_name {
        None => return ReleaseCheck::Unknown,
        Some(tag) => tag,
    };
    if !update_is_newer(tag.as_str()) {
        return ReleaseCheck::Current;
    }
    let assets = match &meta.assets {
        None => return ReleaseCheck::Unknown,
        Some(assets) => assets,
    };
    let i = match find_setup_asset(assets) {
        None => return ReleaseCheck::Unknown,
        Some(i) => i,
    };
    let asset = &assets[i];
    let url = match &asset.browser_download_url {
        None => return ReleaseCheck::Unknown,
        Some(url) => url,
    };
    let digest = match &asset.digest {
        Some(d) => {
            if !digest_well_formed(d.as_str()) {
                return ReleaseCheck::Unknown;
            }
            d
        },
        None => return ReleaseCheck::Unknown,
    };
    let size = match asset.size {
        Some(size) => {
            if !(0 < size && size <= MAX_INSTALLER_BYTES as u64) {
                return ReleaseCheck::Unknown;
            }
            size as usize
        },
        None => return ReleaseCheck::Unknown,
    };
    let path = match release_download_path(url.as_str()) {
        Some(p) => p,
        None => return ReleaseCheck::Unknown,
    };
    ReleaseCheck::Available(
        ReleaseInfo { tag: tag.clone(), path, digest: digest.clone(), size },
    )
}

// ---------------------------------------------------------------------------
// Verifying installer bytes
// ---------------------------------------------------------------------------

/// The size and digest an installer must have.
pub struct ExpectedInstaller {
    pub digest: String,
    pub size: usize,
}

/// The bytes have exactly the expected size and SHA-256 label.
pub open spec fn spec_installer_verified(bytes: Seq<u8>, digest: Seq<char>, size: nat) -> bool {
    bytes.len() == size && sha256_label(bytes) == digest
}

/// Whether downloaded installer bytes have the expected size and digest.
pub fn installer_verified(bytes: &[u8], expected: &ExpectedInstaller) -> (r: bool)
    ensures
        r == spec_installer_verified(bytes@, expected.digest@, expected.size as nat),
{
    bytes.len() == expected.size && digest_matches(bytes, expected.digest.as_str())
}

/// Whether the bytes of a GitHub release download may be installed.
pub fn release_download_verified(bytes: &[u8], info: &ReleaseInfo) -> (r: bool)
    ensures
        r == spec_installer_verified(bytes@, info.digest@, info.size as nat),
{
    bytes.len() == info.size && digest_matches(bytes, info.digest.as_str())
}

/// Whether a share file of `len` bytes may be read at all.
pub fn share_file_size_allowed(len: u64) -> (r: bool)
    ensures
        r == (0 < len && len <= MAX_INSTALLER_BYTES),
{
    0 < len && len <= MAX_INSTALLER_BYTES as u64
}

/// Share bytes are installed when they match the GitHub metadata, if that
/// was fetched; without metadata any non-empty file within the size cap is
/// trusted.
pub open spec fn spec_share_bytes_acceptable(bytes: Seq<u8>, known: Option<ExpectedInstaller>) -> bool {
    match known {
        Some(e) => spec_installer_verified(bytes, e.digest@, e.size as nat),
        None => 0 < bytes.len() && bytes.len() <= MAX_INSTALLER_BYTES,
    }
}

/// Whether installer bytes read from the share may be installed.
pub fn share_bytes_acceptable(bytes: &[u8], known: &Option<ExpectedInstaller>) -> (r: bool)
    ensures
        r == spec_share_bytes_acceptable(bytes@, *known),
{
    match known {
        Some(e) => installer_verified(bytes, e),
        None => bytes.len() > 0 && bytes.len() <= MAX_INSTALLER_BYTES,
    }
}

// ---------------------------------------------------------------------------
// Versioned setup files on the LAN share
// ---------------------------------------------------------------------------

/// One directory entry of the update share.
pub struct ShareEntry {
    /// The full path, when it is valid Unicode.
    pub path: Option<String>,
    /// The file name, when there is one and it is valid Unicode.
    pub name: Option<String>,
    /// Whether the entry is a regular file.
    pub is_file: bool,
}

/// The path and version an entry contributes: a file whose lower-cased name
/// ends in `.exe` and carries a version strictly newer than this build.
pub open spec fn spec_share_candidate(e: ShareEntry) -> Option<(Seq<char>, Version4)> {
    if !e.is_file {
        None
    } else {
        match e.name {
            None => None,
            Some(n) => if !has_suffix(spec_to_lowercase(n@), ".exe"@) {
                None
            } else {
                match spec_parse_smb_filename_version(n@) {
                    None => None,
                    Some(v) => if version4_gt(v, spec_current_version_tuple()) {
                        match e.path {
                            Some(p) => Some((p@, v)),
                            None => None,
                        }
                    } else {
                        None
                    },
                }
            },
        }
    }
}

/// The candidates of `entries`, in directory order.
pub open spec fn spec_share_candidates(entries: Seq<ShareEntry>) -> Seq<(Seq<char>, Version4)>
    decreases entries.len(),
{
    if entries.len() == 0 {
        Seq::empty()
    } else {
        let r = spec_share_candidates(entries.drop_last());
        match spec_share_candidate(entries.last()) {
            Some(c) => r.push(c),
            None => r,
        }
    }
}

/// Where a candidate of version `v` goes in a newest-first list: after every
/// entry that is not older.
pub open spec fn newest_first_position(s: Seq<(Seq<char>, Version4)>, v: Version4) -> nat
    decreases s.len(),
{
    if s.len() == 0 {
        0
    } else if version4_gt(v, s[0].1) {
        0
    } else {
        1 + newest_first_position(s.drop_first(), v)
    }
}

/// Stable sort, newest version first (what `sort_by(|a, b| b.1.cmp(&a.1))`
/// produces): insert each element after the not-older ones before it.
pub open spec fn sort_newest_first(s: Seq<(Seq<char>, Version4)>) -> Seq<(Seq<char>, Version4)>
    decreases s.len(),
{
    if s.len() == 0 {
        Seq::empty()
    } else {
        let r = sort_newest_first(s.drop_last());
        r.insert(newest_first_position(r, s.last().1) as int, s.last())
    }
}

/// The abstract value of a list of candidates.
pub open spec fn candidate_views(v: Seq<(String, Version4)>) -> Seq<(Seq<char>, Version4)> {
    Seq::new(v.len(), |i: int| (v[i].0@, v[i].1))
}

/// The candidate an entry contributes, if any.
pub fn share_candidate(e: &ShareEntry) -> (r: Option<(String, Version4)>)
    ensures
        match r {
            Some(c) => spec_share_candidate(*e) == Some((c.0@, c.1)),
            None => spec_share_candidate(*e) is None,
        },
{
    if !e.is_file {
        return None;
    }
    let name = match &e.name {
        None => return None,
        Some(n) => n,
    };
    let lower = to_lowercase(name.as_str());
    let lc = chars_of(lower.as_str());
    let exe = chars_of(".exe");
    if !ends_with(lc.as_slice(), exe.as_slice()) {
        return None;
    }
    let v = match parse_smb_filename_version(name.as_str()) {
        None => return None,
        Some(v) => v,
    };
    if !version4_newer(v, current_version_tuple()) {
        return None;
    }
    match &e.path {
        Some(p) => Some((p.clone(), v)),
        None => None,
    }
}

/// Law: a share setup file whose version has a later major number than
/// this build (1.2.4) is always a candidate, and one with an earlier major
/// number never is.
pub proof fn lemma_share_candidate_by_major(e: ShareEntry)
    ensures
        spec_current_version_tuple() == (1u32, 2u32, 4u32, 0u32),
        ({
            let v = spec_parse_smb_filename_version(e.name->0@);
            e.is_file && e.name is Some && has_suffix(spec_to_lowercase(e.name->0@), ".exe"@)
                && v is Some && (v->0).0 >= 2 && e.path is Some ==> spec_share_candidate(e) == Some(
                (e.path->0@, v->0),
            )
        }),
        ({
            let v = spec_parse_smb_filename_version(e.name->0@);
            e.name is Some && v is Some && (v->0).0 < 1 ==> spec_share_candidate(e) is None
        }),
{
    lemma_tag_not_newer_is_current(ReleaseMetadata { tag_name: None, assets: None });
    if let Some(n) = e.name {
        if let Some(v) = spec_parse_smb_filename_version(n@) {
            crate::version::lemma_version4_lexicographic(v, spec_current_version_tuple());
        }
    }
}

/// Position at which a candidate of version `v` is inserted.
fn newest_first_index(out: &Vec<(String, Version4)>, v: Version4) -> (pos: usize)
    ensures
        pos as nat == newest_first_position(candidate_views(out@), v),
        pos <= out@.len(),
{
    let ghost s = candidate_views(out@);
    let mut pos: usize = 0;
    assert(s.skip(0) =~= s);
    while pos < out.len() && !version4_newer(v, out[pos].1)
        invariant
            pos <= out@.len(),
            s == candidate_views(out@),
            newest_first_position(s, v) == pos + newest_first_position(s.skip(pos as int), v),
        decreases out@.len() - pos,
    {
        assert(s.skip(pos as int).drop_first() =~= s.skip(pos + 1));
        assert(s.skip(pos as int)[0] == s[pos as int]);
        pos = pos + 1;
    }
    if pos < out.len() {
        assert(s.skip(pos as int)[0] == s[pos as int]);
    }
    pos
}

/// The share's candidate setup files strictly newer than this build, newest
/// first; equal versions keep their directory order.
pub fn share_update_candidates(entries: &[ShareEntry]) -> (out: Vec<(String, Version4)>)
    ensures
        candidate_views(out@) == sort_newest_first(spec_share_candidates(entries@)),
{
    let mut out: Vec<(String, Version4)> = Vec::new();
    let mut i: usize = 0;
    assert(entries@.take(0) =~= Seq::<ShareEntry>::empty());
    while i < entries.len()
        invariant
            i <= entries@.len(),
            candidate_views(out@) == sort_newest_first(spec_share_candidates(entries@.take(i as int))),
        decreases entries@.len() - i,
    {
        let ghost prev = entries@.take(i as int);
        assert(entries@.take(i + 1).drop_last() =~= prev);
        assert(entries@.take(i + 1).last() == entries@[i as int]);
        let ghost cands = spec_share_candidates(prev);
        match share_candidate(&entries[i]) {
            Some(c) => {
                let ghost before = candidate_views(out@);
                let ghost x = (c.0@, c.1);
                assert(spec_share_candidates(entries@.take(i + 1)) == cands.push(x));
                assert(cands.push(x).drop_last() =~= cands);
                let pos = newest_first_index(&out, c.1);
                out.insert(pos, c);
                assert(candidate_views(out@) =~= before.insert(pos as int, x));
            },
            None => {
                assert(spec_share_candidates(entries@.take(i + 1)) == cands);
            },
        }
        i = i + 1;
    }
    assert(entries@.take(entries@.len() as int) =~= entries@);
    out
}

/// Everything before the insert position is not older than `v`; the entry at
/// the position, if any, is older.
pub proof fn lemma_newest_first_position(s: Seq<(Seq<char>, Version4)>, v: Version4)
    ensures
        newest_first_position(s, v) <= s.len(),
        forall|k: int| 0 <= k < newest_first_position(s, v) ==> !version4_gt(v, #[trigger] s[k].1),
        newest_first_position(s, v) < s.len() ==> version4_gt(
            v,
            s[newest_first_position(s, v) as int].1,
        ),
    decreases s.len(),
{
    if s.len() > 0 && !version4_gt(v, s[0].1) {
        lemma_newest_first_position(s.drop_first(), v);
        assert forall|k: int| 0 <= k < newest_first_position(s, v) implies !version4_gt(
            v,
            #[trigger] s[k].1,
        ) by {
            if k > 0 {
                assert(s[k] == s.drop_first()[k - 1]);
            }
        }
    }
}

/// Law: the share candidates come out newest first: no entry is newer than
/// one before it.
pub proof fn lemma_sort_newest_first_ordered(s: Seq<(Seq<char>, Version4)>)
    ensures
        sort_newest_first(s).len() == s.len(),
        forall|i: int, j: int|
            0 <= i < j < s.len() ==> !version4_gt(
                #[trigger] sort_newest_first(s)[j].1,
                #[trigger] sort_newest_first(s)[i].1,
            ),
    decreases s.len(),
{
    if s.len() > 0 {
        let r = sort_newest_first(s.drop_last());
        let x = s.last();
        lemma_sort_newest_first_ordered(s.drop_last());
        lemma_newest_first_position(r, x.1);
        let p = newest_first_position(r, x.1) as int;
        let t = r.insert(p, x);
        r.insert_ensures(p, x);
        assert(t == sort_newest_first(s));
        assert forall|i: int, j: int| 0 <= i < j < t.len() implies !version4_gt(
            #[trigger] t[j].1,
            #[trigger] t[i].1,
        ) by {
            if j < p {
                assert(t[i] == r[i] && t[j] == r[j]);
            } else if j == p {
                assert(t[i] == r[i]);
            } else if i < p {
                assert(t[i] == r[i] && t[j] == r[j - 1]);
                if p < r.len() {
                    assert(!version4_gt(r[j - 1].1, r[p].1) || j - 1 == p);
                }
            } else if i == p {
                assert(t[j] == r[j - 1]);
                assert(!version4_gt(r[j - 1].1, r[p].1) || j - 1 == p);
            } else {
                assert(t[i] == r[i - 1] && t[j] == r[j - 1]);
            }
        }
    }
}

/// Law: sorting keeps exactly the candidates it was given.
pub proof fn lemma_sort_newest_first_permutation(s: Seq<(Seq<char>, Version4)>)
    ensures
        sort_newest_first(s).to_multiset() == s.to_multiset(),
    decreases s.len(),
{
    broadcast use vstd::seq_lib::to_multiset_insert, vstd::seq_lib::to_multiset_build;

    if s.len() == 0 {
        assert(sort_newest_first(s) =~= s);
    } else {
        let r = sort_newest_first(s.drop_last());
        let x = s.last();
        lemma_sort_newest_first_permutation(s.drop_last());
        lemma_newest_first_position(r, x.1);
        let p = newest_first_position(r, x.1) as int;
        assert(s.drop_last().push(x) =~= s);
        assert(r.insert(p, x).to_multiset() == r.to_multiset().insert(x));
        assert(s.drop_last().push(x).to_multiset() == s.drop_last().to_multiset().insert(x));
    }
}

/// Every candidate the share scan keeps is strictly newer than this build.
pub proof fn lemma_share_candidates_newer(entries: Seq<ShareEntry>)
    ensures
        forall|i: int|
            0 <= i < spec_share_candidates(entries).len() ==> version4_gt(
                #[trigger] spec_share_candidates(entries)[i].1,
                spec_current_version_tuple(),
            ),
    decreases entries.len(),
{
    if entries.len() > 0 {
        let r = spec_share_candidates(entries.drop_last());
        lemma_share_candidates_newer(entries.drop_last());
        match spec_share_candidate(entries.last()) {
            Some(c) => {
                assert(version4_gt(c.1, spec_current_version_tuple()));
                assert forall|i: int| 0 <= i < r.push(c).len() implies version4_gt(
                    #[trigger] r.push(c)[i].1,
                    spec_current_version_tuple(),
                ) by {
                    if i < r.len() {
                        assert(r.push(c)[i] == r[i]);
                    }
                }
            },
            None => {},
        }
    }
}

/// Law: the share scan yields only setup files newer than this build, newest
/// first, and exactly the candidates found in the directory.
pub proof fn lemma_share_update_candidates(entries: Seq<ShareEntry>)
    ensures
        ({
            let r = sort_newest_first(spec_share_candidates(entries));
            &&& r.to_multiset() == spec_share_candidates(entries).to_multiset()
            &&& forall|i: int| 0 <= i < r.len() ==> version4_gt(#[trigger] r[i].1, spec_current_version_tuple())
            &&& forall|i: int, j: int| 0 <= i < j < r.len() ==> !version4_gt(#[trigger] r[j].1, #[trigger] r[i].1)
        }),
{
    broadcast use vstd::seq_lib::to_multiset_contains;

    let c = spec_share_candidates(entries);
    let r = sort_newest_first(c);
    lemma_sort_newest_first_permutation(c);
    lemma_sort_newest_first_ordered(c);
    lemma_share_candidates_newer(entries);
    assert forall|i: int| 0 <= i < r.len() implies version4_gt(
        #[trigger] r[i].1,
        spec_current_version_tuple(),
    ) by {
        assert(r.to_multiset().count(r[i]) > 0);
        assert(c.contains(r[i]));
    }
}

// ---------------------------------------------------------------------------
// What to do next
// ---------------------------------------------------------------------------

/// The next step of an update pass.
pub enum UpdateStep {
    /// Nothing more to do.
    Finished,
    /// Download this release from GitHub and verify it.
    DownloadRelease(ReleaseInfo),
    /// Look on the LAN share; with `Some`, its bytes must match the metadata.
    TryShare(Option<ExpectedInstaller>),
}

/// The first step after asking GitHub. A `Current` answer ends the pass:
/// the share mirrors the releases, so a blind share install is never tried
/// while GitHub is healthy.
pub fn first_update_step(check: ReleaseCheck) -> (step: UpdateStep)
    ensures
        match check {
            ReleaseCheck::Current => step is Finished,
            ReleaseCheck::Available(info) => step == UpdateStep::DownloadRelease(info),
            ReleaseCheck::Unknown => step == UpdateStep::TryShare(None),
        },
{
    match check {
        ReleaseCheck::Current => UpdateStep::Finished,
        ReleaseCheck::Available(info) => UpdateStep::DownloadRelease(info),
        ReleaseCheck::Unknown => UpdateStep::TryShare(None),
    }
}

/// The step after a GitHub download attempt: done when it installed,
/// otherwise the share, held to the release's digest and size.
pub fn step_after_release_download(info: ReleaseInfo, installed: bool) -> (step: UpdateStep)
    ensures
        installed ==> step is Finished,
        !installed ==> (step matches UpdateStep::TryShare(Some(e)) && e.digest@ == info.digest@
            && e.size == info.size),
{
    if installed {
        UpdateStep::Finished
    } else {
        UpdateStep::TryShare(Some(ExpectedInstaller { digest: info.digest, size: info.size }))
    }
}

// ---------------------------------------------------------------------------
// Names
// ---------------------------------------------------------------------------

/// `TaskbarIP-<tag without leading v>-setup.exe`.
pub open spec fn spec_staged_installer_name(tag: Seq<char>) -> Seq<char> {
    "TaskbarIP-"@ + trim_leading_v(tag) + "-setup.exe"@
}

/// The file name under which a verified installer is staged in the temp
/// directory.
pub fn staged_installer_name(tag: &str) -> (name: String)
    ensures
        name@ == spec_staged_installer_name(tag@),
{
    let tc = chars_of(tag);
    let k = skip_v(tc.as_slice());
    let mut out = chars_of("TaskbarIP-");
    extend_chars(&mut out, &tc.as_slice()[k..tc.len()]);
    assert(tc@.skip(k as int) =~= tc@.subrange(k as int, tc@.len() as int));
    let tail = chars_of("-setup.exe");
    extend_chars(&mut out, tail.as_slice());
    string_from_chars(out.as_slice())
}

fn skip_v(s: &[char]) -> (k: usize)
    ensures
        k <= s@.len(),
        s@.subrange(k as int, s@.len() as int) == trim_leading_v(s@),
{
    let mut k: usize = 0;
    assert(s@.subrange(0, s@.len() as int) =~= s@);
    while k < s.len() && s[k] == 'v'
        invariant
            k <= s@.len(),
            trim_leading_v(s@) == trim_leading_v(s@.subrange(k as int, s@.len() as int)),
        decreases s@.len() - k,
    {
        assert(s@.subrange(k as int, s@.len() as int).drop_first() =~= s@.subrange(
            k + 1,
            s@.len() as int,
        ));
        k = k + 1;
    }
    k
}

/// `v<major>.<minor>.<patch>`: the tag under which a share installer is
/// staged.
pub open spec fn spec_share_release_tag(v: Version4) -> Seq<char> {
    "v"@ + decimal(v.0 as nat) + "."@ + decimal(v.1 as nat) + "."@ + decimal(v.2 as nat)
}

/// Law: the tag under which a share installer is staged parses back to the
/// installer's major, minor and patch version.
pub proof fn lemma_share_release_tag_parses(v: Version4)
    ensures
        spec_parse_version(spec_share_release_tag(v)) == Some((v.0, v.1, v.2)),
{
    reveal_strlit("v");
    reveal_strlit(".");
    let a = decimal(v.0 as nat);
    let b = decimal(v.1 as nat);
    let c = decimal(v.2 as nat);
    lemma_decimal(v.0 as nat);
    lemma_decimal(v.1 as nat);
    lemma_decimal(v.2 as nat);
    lemma_parse_decimal(v.0);
    lemma_parse_decimal(v.1);
    lemma_parse_decimal(v.2);
    let tag = spec_share_release_tag(v);
    let body = a + seq!['.'] + (b + seq!['.'] + c);
    assert(tag =~= seq!['v'] + body);
    assert(tag.drop_first() =~= body);
    assert(body[0] == a[0]);
    assert(is_ascii_digit(a[0]));
    assert(trim_leading_v(body) == body);
    assert(trim_leading_v(tag) == body);
    lemma_digits_exclude(a, '.');
    lemma_digits_exclude(b, '.');
    lemma_digits_exclude(c, '.');
    lemma_split_on_prefix(a, b + seq!['.'] + c, '.');
    lemma_split_on_prefix(b, c, '.');
    lemma_split_on_whole(c, '.');
    assert(crate::text::split_on(body, '.') =~= seq![a, b, c]);
}

/// The release tag for a share installer of version `v`.
pub fn share_release_tag(v: Version4) -> (tag: String)
    ensures
        tag@ == spec_share_release_tag(v),
{
    let mut out = chars_of("v");
    let dot = chars_of(".");
    let a = decimal_chars(v.0);
    let b = decimal_chars(v.1);
    let c = decimal_chars(v.2);
    extend_chars(&mut out, a.as_slice());
    extend_chars(&mut out, dot.as_slice());
    extend_chars(&mut out, b.as_slice());
    extend_chars(&mut out, dot.as_slice());
    extend_chars(&mut out, c.as_slice());
    string_from_chars(out.as_slice())
}

} // verus!
