//! The official release list on GitHub: which archives count, how the pages of
//! the list are followed, and what a download has to satisfy.

use crate::digest::{hex, hex_digit, same_hash};
use crate::lists::{picks, picks_grow, picks_nothing};
use crate::model::{ReleaseId, ReleaseMetadata};
use crate::order::{
    code_points, is_stable_order, key_less, precedes, precedes_is_irreflexive, precedes_is_total,
    precedes_is_transitive, stable_order, stable_orders_are_sorted, KeyModel, OrderKey,
};
use crate::text::{
    ascii_folded, begins, chars_of, ends, fold_text, is_white, join_three, join_two, part_of,
    same_chars, split, split_at_each, stands_at, text_of, trim, trimmed,
    trimming_takes_only_white_space, views, written_parts_are_split_off,
};
use vstd::prelude::*;

verus! {

/// The list of Streamline releases.
pub const RELEASES_URL: &'static str =
    "https://api.github.com/repos/NVIDIA-RTX/Streamline/releases?per_page=100";

/// The largest archive that is downloaded or opened: 2 GiB.
pub const MAX_ARCHIVE_BYTES: u64 = 2147483648;

/// How many pages of the list are read at most.
pub const MAX_PAGES: usize = 20;

/// A release archive that can be downloaded.
#[derive(Debug, PartialEq, Eq)]
pub struct OfficialAsset {
    pub release: ReleaseMetadata,
    pub download_url: String,
    pub size: u64,
    pub digest: Option<[u8; 32]>,
}

impl Clone for OfficialAsset {
    fn clone(&self) -> (copy: OfficialAsset)
        ensures
            copy == *self,
    {
        OfficialAsset {
            release: self.release.clone(),
            download_url: self.download_url.clone(),
            size: self.size,
            digest: self.digest,
        }
    }
}

/// What a refresh of the release list came to.
#[derive(Debug, PartialEq, Eq)]
pub enum ReleaseRefresh {
    NotModified,
    Modified { etag: Option<String>, assets: Vec<OfficialAsset> },
}

/// Why GitHub could not be used.
#[derive(Debug, PartialEq, Eq)]
pub enum GithubError {
    Http(String),
    Io { permission_denied: bool, message: String },
    /// An answer other than success; `status` is how the status line reads.
    Status { status: String, message: String },
    TooLarge,
    DigestMismatch,
    InvalidDigest,
    TooManyPages,
}

/// How an error is worded.
pub open spec fn github_error_text(error: GithubError) -> Seq<char> {
    match error {
        GithubError::Http(message) => "HTTP error: "@ + message@,
        GithubError::Io { permission_denied: _, message } => "I/O error: "@ + message@,
        GithubError::Status { status, message } => "GitHub returned "@ + status@ + (": "@
            + message@),
        GithubError::TooLarge => "download exceeds safety limit"@,
        GithubError::DigestMismatch => "download digest mismatch"@,
        GithubError::InvalidDigest => "invalid SHA-256 digest"@,
        GithubError::TooManyPages => "too many GitHub release pages"@,
    }
}

impl GithubError {
    /// The error in words.
    pub fn to_text(&self) -> (text: String)
        ensures
            text@ == github_error_text(*self),
    {
        match self {
            GithubError::Http(message) => join_two("HTTP error: ", message),
            GithubError::Io { permission_denied: _, message } => join_two("I/O error: ", message),
            GithubError::Status { status, message } => {
                let detail = join_two(": ", message);
                join_three("GitHub returned ", status, &detail)
            },
            GithubError::TooLarge => "download exceeds safety limit".to_owned(),
            GithubError::DigestMismatch => "download digest mismatch".to_owned(),
            GithubError::InvalidDigest => "invalid SHA-256 digest".to_owned(),
            GithubError::TooManyPages => "too many GitHub release pages".to_owned(),
        }
    }
}

/// A release as GitHub describes it.
#[derive(Debug, PartialEq, Eq)]
pub struct ApiRelease {
    pub tag_name: String,
    pub published_at: String,
    pub draft: bool,
    pub prerelease: bool,
    pub assets: Vec<ApiAsset>,
}

/// A file of a release as GitHub describes it.
#[derive(Debug, PartialEq, Eq)]
pub struct ApiAsset {
    pub name: String,
    pub browser_download_url: String,
    pub size: u64,
    pub digest: Option<String>,
}

/// The value of a hexadecimal digit in either case.
pub open spec fn hex_value(character: char) -> Option<int> {
    if '0' <= character <= '9' {
        Some(character as int - '0' as int)
    } else if 'a' <= character <= 'f' {
        Some(character as int - 'a' as int + 10)
    } else if 'A' <= character <= 'F' {
        Some(character as int - 'A' as int + 10)
    } else {
        None
    }
}

/// The value of two characters as a hexadecimal number. A plus sign may stand
/// in the first place.
pub open spec fn pair_value(first: char, second: char) -> Option<int> {
    match (hex_value(first), hex_value(second)) {
        (Some(high), Some(low)) => Some(16 * high + low),
        (None, Some(low)) => if first == '+' {
            Some(low)
        } else {
            None
        },
        _ => None,
    }
}

/// Whether `digits` are the 64 hexadecimal digits of a digest.
pub open spec fn are_hash_digits(digits: Seq<char>) -> bool {
    digits.len() == 64 && forall|i: int|
        0 <= i < 32 ==> #[trigger] pair_value(digits[2 * i], digits[2 * i + 1]) is Some
}

/// Whether `digits` write down `hash`.
pub open spec fn digits_write(digits: Seq<char>, hash: [u8; 32]) -> bool {
    digits.len() == 64 && forall|i: int|
        0 <= i < 32 ==> #[trigger] pair_value(digits[2 * i], digits[2 * i + 1]) == Some(
            hash[i] as int,
        )
}

fn hex_digit_value(character: char) -> (value: Option<u8>)
    ensures
        match value {
            Some(value) => hex_value(character) == Some(value as int) && value < 16,
            None => hex_value(character) is None,
        },
{
    if '0' <= character && character <= '9' {
        Some((character as u8) - 48)
    } else if 'a' <= character && character <= 'f' {
        Some((character as u8) - 87)
    } else if 'A' <= character && character <= 'F' {
        Some((character as u8) - 55)
    } else {
        None
    }
}

fn hex_pair(first: char, second: char) -> (value: Option<u8>)
    ensures
        match value {
            Some(value) => pair_value(first, second) == Some(value as int),
            None => pair_value(first, second) is None,
        },
{
    match (hex_digit_value(first), hex_digit_value(second)) {
        (Some(high), Some(low)) => Some(16 * high + low),
        (None, Some(low)) => if first == '+' {
            Some(low)
        } else {
            None
        },
        _ => None,
    }
}

fn hash_from_digits(digits: &Vec<char>) -> (hash: Option<[u8; 32]>)
    ensures
        hash is Some <==> are_hash_digits(digits@),
        hash matches Some(hash) ==> digits_write(digits@, hash),
{
    if digits.len() != 64 {
        return None;
    }
    let mut hash: [u8; 32] = [0u8; 32];
    let mut at: usize = 0;
    while at < 32
        invariant
            at <= 32,
            digits.len() == 64,
            forall|i: int|
                0 <= i < at ==> #[trigger] pair_value(digits@[2 * i], digits@[2 * i + 1]) == Some(
                    hash[i] as int,
                ),
        decreases 32 - at,
    {
        match hex_pair(digits[2 * at], digits[2 * at + 1]) {
            Some(value) => {
                hash[at] = value;
            },
            None => {
                proof {
                    assert(pair_value(digits@[2 * at], digits@[2 * at + 1]) is None);
                }
                return None;
            },
        }
        at += 1;
    }
    Some(hash)
}

/// Reads a digest from its 64 hexadecimal digits.
pub fn parse_sha256(text: &str) -> (hash: Option<[u8; 32]>)
    ensures
        hash is Some <==> are_hash_digits(text@),
        hash matches Some(hash) ==> digits_write(text@, hash),
{
    let digits = chars_of(text);
    hash_from_digits(&digits)
}

/// Whether `text` is a SHA-256 digest in GitHub's notation.
pub open spec fn is_digest_text(text: Seq<char>) -> bool {
    begins(text, "sha256:"@) && are_hash_digits(text.skip(7))
}

/// Reads a digest in GitHub's notation: `sha256:` and 64 hexadecimal digits.
pub fn parse_digest(value: &str) -> (digest: Option<[u8; 32]>)
    ensures
        digest is Some <==> is_digest_text(value@),
        digest matches Some(digest) ==> digits_write(value@.skip(7), digest),
{
    proof {
        reveal_strlit("sha256:");
    }
    let text = chars_of(value);
    let prefix = chars_of("sha256:");
    if !stands_at(&text, &prefix, 0) {
        return None;
    }
    let digits = part_of(&text, 7, text.len());
    proof {
        assert(value@.skip(7) =~= digits@);
    }
    hash_from_digits(&digits)
}

/// Reading back the digits that a digest is written with gives that digest and
/// no other.
pub proof fn written_digests_are_read_back(hash: [u8; 32])
    ensures
        are_hash_digits(hex(hash@)),
        forall|other: [u8; 32]| digits_write(hex(hash@), other) <==> other == hash,
{
    let digits = hex(hash@);
    assert forall|i: int| 0 <= i < 32 implies #[trigger] pair_value(
        digits[2 * i],
        digits[2 * i + 1],
    ) == Some(hash[i] as int) by {
        let even = 2 * i;
        let odd = 2 * i + 1;
        assert(even / 2 == i && even % 2 == 0);
        assert(odd / 2 == i && odd % 2 == 1);
        let high = hash[i] as int / 16;
        let low = hash[i] as int % 16;
        assert(digits[even] == hex_digit(high));
        assert(digits[odd] == hex_digit(low));
        assert(hex_value(hex_digit(high)) == Some(high));
        assert(hex_value(hex_digit(low)) == Some(low));
    }
    assert forall|other: [u8; 32]| digits_write(digits, other) implies other == hash by {
        assert forall|i: int| 0 <= i < 32 implies other[i] == hash[i] by {
            assert(pair_value(digits[2 * i], digits[2 * i + 1]) == Some(other[i] as int));
        }
        assert(other =~= hash);
    }
}

/// Whether one of the later pieces of a link says that it leads to the next
/// page.
pub open spec fn leads_on(pieces: Seq<Seq<char>>) -> bool {
    exists|i: int| 1 <= i < pieces.len() && trimmed(#[trigger] pieces[i]) == "rel=\"next\""@
}

/// The address in a link, without the brackets around it.
pub open spec fn bracketed(address: Seq<char>) -> Option<Seq<char>> {
    if address.len() >= 2 && address[0] == '<' && address.last() == '>' {
        Some(address.subrange(1, address.len() - 1))
    } else {
        None
    }
}

/// The address that one link of a header gives for the next page.
pub open spec fn link_target(link: Seq<char>) -> Option<Seq<char>> {
    let pieces = split_at_each(trimmed(link), ';');
    if leads_on(pieces) {
        bracketed(trimmed(pieces[0]))
    } else {
        None
    }
}

/// The first address among `links` for the next page.
pub open spec fn first_target(links: Seq<Seq<char>>) -> Option<Seq<char>>
    decreases links.len(),
{
    if links.len() == 0 {
        None
    } else {
        match first_target(links.drop_last()) {
            Some(address) => Some(address),
            None => link_target(links.last()),
        }
    }
}

fn find_target(link: &Vec<char>) -> (target: Option<Vec<char>>)
    ensures
        match target {
            Some(address) => link_target(link@) == Some(address@),
            None => link_target(link@) is None,
        },
{
    let whole = trim(link);
    let pieces = split(&whole, ';');
    let relation = chars_of("rel=\"next\"");
    let ghost seen = views(pieces@);
    let mut leads = false;
    let mut at: usize = 1;
    while at < pieces.len() && !leads
        invariant
            1 <= at,
            pieces.len() > 0,
            at <= pieces.len(),
            seen == views(pieces@),
            relation@ == "rel=\"next\""@,
            leads ==> leads_on(seen),
            !leads ==> forall|i: int|
                1 <= i < at ==> trimmed(#[trigger] seen[i]) != "rel=\"next\""@,
        decreases pieces.len() - at,
    {
        let piece = trim(&pieces[at]);
        proof {
            assert(seen[at as int] == pieces@[at as int]@);
        }
        if same_chars(&piece, &relation) {
            leads = true;
        }
        at += 1;
    }
    if !leads {
        return None;
    }
    let address = trim(&pieces[0]);
    proof {
        assert(seen[0] == pieces@[0]@);
    }
    if address.len() >= 2 && address[0] == '<' && address[address.len() - 1] == '>' {
        Some(part_of(&address, 1, address.len() - 1))
    } else {
        None
    }
}

/// The address of the next page that a `Link` header gives.
pub fn next_link(header: &str) -> (next: Option<String>)
    ensures
        match next {
            Some(address) => first_target(split_at_each(header@, ',')) == Some(address@),
            None => first_target(split_at_each(header@, ',')) is None,
        },
{
    let header_chars = chars_of(header);
    let links = split(&header_chars, ',');
    let ghost seen = views(links@);
    let mut at: usize = 0;
    while at < links.len()
        invariant
            at <= links.len(),
            seen == views(links@),
            seen == split_at_each(header@, ','),
            first_target(seen.take(at as int)) is None,
        decreases links.len() - at,
    {
        proof {
            assert(seen.take(at + 1).drop_last() =~= seen.take(at as int));
            assert(seen[at as int] == links@[at as int]@);
        }
        if let Some(address) = find_target(&links[at]) {
            proof {
                first_target_stays(seen, at + 1);
            }
            return Some(text_of(&address));
        }
        at += 1;
    }
    proof {
        assert(seen.take(at as int) =~= seen);
    }
    None
}

proof fn first_target_stays(links: Seq<Seq<char>>, at: int)
    requires
        0 <= at <= links.len(),
        first_target(links.take(at)) is Some,
    ensures
        first_target(links) == first_target(links.take(at)),
    decreases links.len(),
{
    if at == links.len() {
        assert(links.take(at) =~= links);
    } else {
        assert(links.drop_last().take(at) =~= links.take(at));
        first_target_stays(links.drop_last(), at);
    }
}

/// The second, counted from 1970, that a point in time written down as `text`
/// lies in, if it can be read.
pub uninterp spec fn timestamp_second(text: Seq<char>) -> Option<i64>;

/// `jiff::Timestamp::from_str` reads a point in time with its offset from UTC,
/// and `jiff::Timestamp::as_second` gives its whole seconds since 1970. What is
/// claimed is only that the text alone decides the result.
#[verifier::external_body]
fn parse_timestamp(text: &str) -> (second: Option<i64>)
    ensures
        second == timestamp_second(text@),
{
    text.parse::<jiff::Timestamp>().ok().map(|timestamp| timestamp.as_second())
}

/// Whether a file name is that of an SDK archive, whatever the case of its
/// letters.
pub open spec fn is_sdk_archive(name: Seq<char>) -> bool {
    begins(ascii_folded(name), "streamline-sdk-v"@) && ends(ascii_folded(name), ".zip"@)
}

/// The position of the first SDK archive, or the number of files if there is
/// none.
pub open spec fn archive_position(assets: Seq<ApiAsset>) -> int
    decreases assets.len(),
{
    if assets.len() == 0 {
        0
    } else {
        let before = archive_position(assets.drop_last());
        if before < assets.len() - 1 {
            before
        } else if is_sdk_archive(assets.last().name@) {
            assets.len() - 1
        } else {
            assets.len() as int
        }
    }
}

/// Whether a release is offered: it is final, and has an SDK archive.
pub open spec fn is_offered(release: ApiRelease) -> bool {
    !release.draft && !release.prerelease && archive_position(release.assets@)
        < release.assets.len()
}

/// Whether `asset` describes an offered release that was published at
/// `published`. A release of unknown date counts as published in 1970.
pub open spec fn describes(
    release: ApiRelease,
    published: Option<i64>,
    asset: OfficialAsset,
) -> bool {
    let file = release.assets@[archive_position(release.assets@)];
    &&& asset.release.id@ == release.tag_name@
    &&& asset.release.tag@ == release.tag_name@
    &&& asset.release.asset_name == file.name
    &&& asset.release.published_unix == match published {
        Some(second) => second,
        None => 0,
    }
    &&& asset.download_url == file.browser_download_url
    &&& asset.size == file.size
    &&& match file.digest {
        Some(text) => {
            &&& asset.digest is Some <==> is_digest_text(text@)
            &&& asset.digest matches Some(digest) ==> digits_write(text@.skip(7), digest)
        },
        None => asset.digest is None,
    }
}

fn names_sdk_archive(name: &str) -> (archive: bool)
    ensures
        archive == is_sdk_archive(name@),
{
    let folded = fold_text(name);
    let start = chars_of("streamline-sdk-v");
    let end = chars_of(".zip");
    end.len() <= folded.len() && stands_at(&folded, &start, 0) && stands_at(
        &folded,
        &end,
        folded.len() - end.len(),
    )
}

/// The archive of a release that was published at `published`.
pub fn select_asset_published(release: ApiRelease, published: Option<i64>) -> (asset: Option<
    OfficialAsset,
>)
    ensures
        asset is Some <==> is_offered(release),
        asset matches Some(asset) ==> describes(release, published, asset),
{
    if release.draft || release.prerelease {
        return None;
    }
    let mut found: usize = 0;
    let mut at: usize = 0;
    while at < release.assets.len()
        invariant
            at <= release.assets.len(),
            found <= at,
            found == archive_position(release.assets@.take(at as int)),
        decreases release.assets.len() - at,
    {
        proof {
            assert(release.assets@.take(at + 1).drop_last() =~= release.assets@.take(at as int));
        }
        if found == at && !names_sdk_archive(&release.assets[at].name) {
            found = at + 1;
        }
        at += 1;
    }
    proof {
        assert(release.assets@.take(at as int) =~= release.assets@);
    }
    if found >= release.assets.len() {
        return None;
    }
    let file = &release.assets[found];
    let digest = match &file.digest {
        Some(text) => parse_digest(text),
        None => None,
    };
    let published_unix: i64 = match published {
        Some(second) => second,
        None => 0,
    };
    Some(
        OfficialAsset {
            release: ReleaseMetadata {
                id: ReleaseId(release.tag_name.clone()),
                tag: release.tag_name.clone(),
                asset_name: file.name.clone(),
                published_unix,
            },
            download_url: file.browser_download_url.clone(),
            size: file.size,
            digest,
        },
    )
}

/// The archive of a release. Drafts and prereleases have none, nor has a
/// release without an SDK archive.
pub fn select_asset(release: ApiRelease) -> (asset: Option<OfficialAsset>)
    ensures
        asset is Some <==> is_offered(release),
        asset matches Some(asset) ==> describes(
            release,
            timestamp_second(release.published_at@),
            asset,
        ),
{
    let published = parse_timestamp(&release.published_at);
    select_asset_published(release, published)
}

/// What releases are ordered by: the date, then the tag.
pub open spec fn release_key(asset: OfficialAsset) -> KeyModel {
    KeyModel {
        number: asset.release.published_unix + 0x8000_0000_0000_0000,
        first: asset.release.tag@,
        second: Seq::empty(),
    }
}

/// The keys of all of `assets`.
pub open spec fn release_keys(assets: Seq<OfficialAsset>) -> Seq<KeyModel> {
    assets.map_values(|asset: OfficialAsset| release_key(asset))
}

/// Whether `sorted` holds `assets` with the latest first. Of assets with the
/// same date and tag the earlier one stays first.
pub open spec fn is_latest_first(assets: Seq<OfficialAsset>, sorted: Seq<OfficialAsset>) -> bool {
    exists|order: Seq<usize>|
        #![trigger is_stable_order(release_keys(assets), true, order)]
        is_stable_order(release_keys(assets), true, order) && sorted == order.map_values(
            |at: usize| assets[at as int],
        )
}

fn key_of_release(asset: &OfficialAsset) -> (key: OrderKey)
    ensures
        key@ == release_key(*asset),
{
    let number: i128 = asset.release.published_unix as i128 + 0x8000_0000_0000_0000;
    let key = OrderKey {
        number: number as u128,
        first: chars_of(&asset.release.tag),
        second: Vec::new(),
    };
    proof {
        assert(key.second@ =~= Seq::<char>::empty());
    }
    key
}

/// Sorts assets with the latest first.
pub fn sort_latest_first(assets: &Vec<OfficialAsset>) -> (sorted: Vec<OfficialAsset>)
    ensures
        is_latest_first(assets@, sorted@),
        sorted.len() == assets.len(),
{
    let mut keys: Vec<OrderKey> = Vec::new();
    let mut at: usize = 0;
    while at < assets.len()
        invariant
            at <= assets.len(),
            keys.len() == at,
            forall|i: int| 0 <= i < at ==> (#[trigger] keys@[i])@ == release_key(assets@[i]),
        decreases assets.len() - at,
    {
        keys.push(key_of_release(&assets[at]));
        at += 1;
    }
    proof {
        assert(keys@.map_values(|key: OrderKey| key@) =~= release_keys(assets@));
    }
    let order = stable_order(&keys, true);
    let mut sorted: Vec<OfficialAsset> = Vec::new();
    let mut next: usize = 0;
    while next < order.len()
        invariant
            next <= order.len(),
            is_stable_order(release_keys(assets@), true, order@),
            sorted.len() == next,
            forall|i: int| 0 <= i < next ==> #[trigger] sorted@[i] == assets@[order@[i] as int],
        decreases order.len() - next,
    {
        proof {
            assert(release_keys(assets@).len() == assets.len());
            assert(order@[next as int] < release_keys(assets@).len());
        }
        sorted.push(assets[order[next]].clone());
        next += 1;
    }
    proof {
        assert(sorted@ =~= order@.map_values(|at: usize| assets@[at as int]));
        assert(is_stable_order(release_keys(assets@), true, order@));
    }
    sorted
}

/// The latest asset. The last one wins where several are.
pub open spec fn latest_of(assets: Seq<OfficialAsset>) -> Option<OfficialAsset>
    decreases assets.len(),
{
    if assets.len() == 0 {
        None
    } else {
        match latest_of(assets.drop_last()) {
            Some(best) => if key_less(release_key(assets.last()), release_key(best)) {
                Some(best)
            } else {
                Some(assets.last())
            },
            None => Some(assets.last()),
        }
    }
}

/// The latest asset.
pub fn latest_asset(assets: &[OfficialAsset]) -> (latest: Option<&OfficialAsset>)
    ensures
        match latest {
            Some(asset) => latest_of(assets@) == Some(*asset),
            None => assets@.len() == 0,
        },
{
    let mut best: Option<usize> = None;
    let mut at: usize = 0;
    while at < assets.len()
        invariant
            at <= assets.len(),
            match best {
                Some(place) => place < at && latest_of(assets@.take(at as int)) == Some(
                    assets@[place as int],
                ),
                None => at == 0,
            },
        decreases assets.len() - at,
    {
        proof {
            assert(assets@.take(at + 1).drop_last() =~= assets@.take(at as int));
        }
        best = match best {
            Some(place) => {
                let ours = key_of_release(&assets[at]);
                let theirs = key_of_release(&assets[place]);
                if crate::order::key_is_less(&ours, &theirs) {
                    Some(place)
                } else {
                    Some(at)
                }
            },
            None => Some(at),
        };
        at += 1;
    }
    proof {
        assert(assets@.take(at as int) =~= assets@);
    }
    match best {
        Some(place) => Some(&assets[place]),
        None => None,
    }
}

/// What came of a request for a page.
#[derive(Debug, PartialEq, Eq)]
pub enum PageReply {
    /// No answer came.
    Failed(GithubError),
    Answered {
        /// The status code, such as 200, and how the status line reads.
        code: u16,
        status: String,
        etag: Option<String>,
        link: Option<String>,
        /// The releases on the page, read only if the request succeeded.
        releases: Result<Vec<ApiRelease>, GithubError>,
        /// The body as text, read only if it did not.
        message: String,
    },
}

/// How far a refresh has come.
#[derive(Debug, PartialEq, Eq)]
pub enum RefreshStage {
    /// Page number `page` is to be read from `url`. The pages before gave
    /// `assets`.
    Reading { page: usize, url: String, etag: Option<String>, assets: Vec<OfficialAsset> },
    Ended { outcome: Result<ReleaseRefresh, GithubError> },
}

/// The assets offered by `releases`, in their order, are what `added` adds to
/// `before`.
pub open spec fn adds_offered(
    before: Seq<OfficialAsset>,
    releases: Seq<ApiRelease>,
    after: Seq<OfficialAsset>,
) -> bool
    decreases releases.len(),
{
    if releases.len() == 0 {
        after == before
    } else if is_offered(releases.last()) {
        &&& after.len() > 0
        &&& describes(
            releases.last(),
            timestamp_second(releases.last().published_at@),
            after.last(),
        )
        &&& adds_offered(before, releases.drop_last(), after.drop_last())
    } else {
        adds_offered(before, releases.drop_last(), after)
    }
}

/// Whether a status code means success.
pub open spec fn is_success(code: u16) -> bool {
    200 <= code < 300
}

/// Whether a refresh has failed with `error`.
pub open spec fn refresh_failed(stage: RefreshStage, error: GithubError) -> bool {
    stage == (RefreshStage::Ended { outcome: Err(error) })
}

/// Whether `sorted` holds `before` and what `releases` offer, with the latest
/// first.
pub open spec fn is_sorted_gathering(
    before: Seq<OfficialAsset>,
    releases: Seq<ApiRelease>,
    sorted: Seq<OfficialAsset>,
) -> bool {
    exists|all: Seq<OfficialAsset>|
        #[trigger] adds_offered(before, releases, all) && is_latest_first(all, sorted)
}

/// Whether `next` is where a refresh goes on after a page was read.
pub open spec fn page_was_read(
    page: usize,
    etag: Option<String>,
    before: Seq<OfficialAsset>,
    link: Option<String>,
    releases: Seq<ApiRelease>,
    next: RefreshStage,
) -> bool {
    let target = match link {
        Some(header) => first_target(split_at_each(header@, ',')),
        None => None,
    };
    match target {
        None => {
            &&& next matches RefreshStage::Ended {
                outcome: Ok(ReleaseRefresh::Modified { etag: given, assets }),
            }
            &&& given == etag
            &&& is_sorted_gathering(before, releases, assets@)
        },
        Some(address) => if page >= MAX_PAGES {
            refresh_failed(next, GithubError::TooManyPages)
        } else {
            &&& next matches RefreshStage::Reading { page: number, url, etag: given, assets }
            &&& number == page + 1
            &&& url@ == address
            &&& given == etag
            &&& adds_offered(before, releases, assets@)
        },
    }
}

/// Whether `next` is the stage that `reply` leads to.
pub open spec fn refresh_follows(
    stage: RefreshStage,
    reply: PageReply,
    next: RefreshStage,
) -> bool {
    match (stage, reply) {
        (RefreshStage::Reading { page: _, url: _, etag: _, assets: _ }, PageReply::Failed(error)) => {
            refresh_failed(next, error)
        },
        (
            RefreshStage::Reading { page, url: _, etag, assets },
            PageReply::Answered { code, status, etag: given, link, releases, message },
        ) => if page == 1 && code == 304 {
            next == (RefreshStage::Ended { outcome: Ok(ReleaseRefresh::NotModified) })
        } else if !is_success(code) {
            refresh_failed(next, GithubError::Status { status, message })
        } else {
            match releases {
                Err(error) => refresh_failed(next, error),
                Ok(releases) => page_was_read(
                    page,
                    if page == 1 {
                        given
                    } else {
                        etag
                    },
                    assets@,
                    link,
                    releases@,
                    next,
                ),
            }
        },
        (RefreshStage::Ended { outcome: _ }, _) => next == stage,
    }
}

/// The entity tag to send along with a request: the previous one, with the
/// first page only.
pub fn request_etag(page: usize, previous: Option<String>) -> (etag: Option<String>)
    ensures
        etag == if page == 1 {
            previous
        } else {
            None
        },
{
    if page == 1 {
        previous
    } else {
        None
    }
}

fn gather(before: Vec<OfficialAsset>, releases: Vec<ApiRelease>) -> (after: Vec<OfficialAsset>)
    ensures
        adds_offered(before@, releases@, after@),
{
    let ghost given = releases@;
    let ghost start = before@;
    let mut rest = releases;
    let mut after = before;
    while rest.len() > 0
        invariant
            rest.len() <= given.len(),
            rest@ == given.skip(given.len() - rest.len()),
            adds_offered(start, given.take(given.len() - rest.len()), after@),
        decreases rest.len(),
    {
        let ghost done = given.len() - rest.len();
        proof {
            assert(rest@[0] == given[done]);
            assert(given.take(done + 1).drop_last() =~= given.take(done));
        }
        let release = rest.remove(0);
        proof {
            assert(given.skip(done).remove(0) =~= given.skip(done + 1));
        }
        let ghost grown = after@;
        if let Some(asset) = select_asset(release) {
            after.push(asset);
            proof {
                assert(after@.drop_last() =~= grown);
            }
        }
    }
    proof {
        assert(given.take(given.len() as int) =~= given);
    }
    after
}

fn go_on(
    page: usize,
    etag: Option<String>,
    assets: Vec<OfficialAsset>,
    link: Option<String>,
    releases: Vec<ApiRelease>,
) -> (next: RefreshStage)
    ensures
        page_was_read(page, etag, assets@, link, releases@, next),
        next matches RefreshStage::Reading { page, url: _, etag: _, assets: _ } ==> page
            <= MAX_PAGES,
{
    let target = match &link {
        Some(header) => next_link(header),
        None => None,
    };
    let ghost before = assets@;
    let ghost given = releases@;
    let gathered = gather(assets, releases);
    match target {
        None => {
            let sorted = sort_latest_first(&gathered);
            proof {
                assert(adds_offered(before, given, gathered@));
                assert(is_sorted_gathering(before, given, sorted@));
            }
            RefreshStage::Ended { outcome: Ok(ReleaseRefresh::Modified { etag, assets: sorted }) }
        },
        Some(address) => if page >= MAX_PAGES {
            RefreshStage::Ended { outcome: Err(GithubError::TooManyPages) }
        } else {
            RefreshStage::Reading { page: page + 1, url: address, etag, assets: gathered }
        },
    }
}

/// The releases of a project on GitHub.
#[derive(Debug, PartialEq, Eq)]
pub struct GithubCatalogClient {
    /// Where the list of releases starts.
    pub releases_url: String,
}

impl GithubCatalogClient {
    /// The releases of the Streamline SDK.
    pub fn new() -> (client: GithubCatalogClient)
        ensures
            client.releases_url@ == RELEASES_URL@,
    {
        GithubCatalogClient { releases_url: RELEASES_URL.to_owned() }
    }

    /// Where a refresh starts.
    pub fn begin_refresh(&self) -> (stage: RefreshStage)
        ensures
            stage matches RefreshStage::Reading { page, url, etag, assets } && page == 1 && url@
                == self.releases_url@ && etag is None && assets.len() == 0,
    {
        RefreshStage::Reading {
            page: 1,
            url: self.releases_url.clone(),
            etag: None,
            assets: Vec::new(),
        }
    }

    /// The stage that `reply` leads to.
    pub fn refresh(&self, stage: RefreshStage, reply: PageReply) -> (next: RefreshStage)
        ensures
            refresh_follows(stage, reply, next),
            next matches RefreshStage::Reading { page, url: _, etag: _, assets: _ } ==> page
                <= MAX_PAGES,
    {
        match (stage, reply) {
            (RefreshStage::Reading { page: _, url: _, etag: _, assets: _ }, PageReply::Failed(error)) => {
                RefreshStage::Ended { outcome: Err(error) }
            },
            (
                RefreshStage::Reading { page, url: _, etag, assets },
                PageReply::Answered { code, status, etag: given, link, releases, message },
            ) => {
                if page == 1 && code == 304 {
                    return RefreshStage::Ended { outcome: Ok(ReleaseRefresh::NotModified) };
                }
                if !(200 <= code && code < 300) {
                    return RefreshStage::Ended { outcome: Err(GithubError::Status { status, message }) };
                }
                let etag = if page == 1 {
                    given
                } else {
                    etag
                };
                match releases {
                    Err(error) => RefreshStage::Ended { outcome: Err(error) },
                    Ok(releases) => go_on(page, etag, assets, link, releases),
                }
            },
            (stage, _) => stage,
        }
    }
}

/// How much of a download has arrived.
#[derive(Clone, Copy, Debug, PartialEq, Eq, Structural)]
pub struct DownloadProgress {
    pub received: u64,
    pub total: Option<u64>,
}

/// The progress before the first byte: the announced size, or else the size
/// that the catalog gives.
pub fn begin_download(asset_size: u64, content_length: Option<u64>) -> (progress: Result<
    DownloadProgress,
    GithubError,
>)
    ensures
        ({
            let total = match content_length {
                Some(length) => Some(length),
                None => if asset_size > 0 {
                    Some(asset_size)
                } else {
                    None
                },
            };
            if asset_size > MAX_ARCHIVE_BYTES || (total matches Some(size) && size
                > MAX_ARCHIVE_BYTES) {
                progress == Err::<DownloadProgress, GithubError>(GithubError::TooLarge)
            } else {
                progress == Ok::<DownloadProgress, GithubError>(
                    DownloadProgress { received: 0, total },
                )
            }
        }),
{
    let total: Option<u64> = match content_length {
        Some(length) => Some(length),
        None => if asset_size > 0 {
            Some(asset_size)
        } else {
            None
        },
    };
    if asset_size > MAX_ARCHIVE_BYTES {
        return Err(GithubError::TooLarge);
    }
    if let Some(size) = total {
        if size > MAX_ARCHIVE_BYTES {
            return Err(GithubError::TooLarge);
        }
    }
    Ok(DownloadProgress { received: 0, total })
}

/// The progress after another chunk. A download that grows beyond the limit is
/// given up, whatever size was announced.
pub fn continue_download(progress: DownloadProgress, chunk: usize) -> (next: Result<
    DownloadProgress,
    GithubError,
>)
    ensures
        progress.received + chunk > MAX_ARCHIVE_BYTES ==> next == Err::<
            DownloadProgress,
            GithubError,
        >(GithubError::TooLarge),
        progress.received + chunk <= MAX_ARCHIVE_BYTES ==> next == Ok::<
            DownloadProgress,
            GithubError,
        >(
            DownloadProgress {
                received: (progress.received + chunk) as u64,
                total: progress.total,
            },
        ),
{
    if progress.received > MAX_ARCHIVE_BYTES || chunk as u64 > MAX_ARCHIVE_BYTES
        - progress.received {
        return Err(GithubError::TooLarge);
    }
    Ok(DownloadProgress { received: progress.received + chunk as u64, total: progress.total })
}

/// Compares the digest of a download with the one that GitHub published, if it
/// published one.
pub fn check_download(published: &Option<[u8; 32]>, actual: &[u8; 32]) -> (result: Result<
    (),
    GithubError,
>)
    ensures
        result is Ok <==> (*published matches Some(expected) ==> expected == *actual),
        result matches Err(error) ==> error == GithubError::DigestMismatch,
{
    match published {
        Some(expected) => if same_hash(expected, actual) {
            Ok(())
        } else {
            Err(GithubError::DigestMismatch)
        },
        None => Ok(()),
    }
}

/// Whether an archive in the cache may be used: it is within the limit and has
/// the published digest.
pub fn validate_cached_archive(asset: &OfficialAsset, size: u64, actual: &[u8; 32]) -> (result:
    Result<(), GithubError>)
    ensures
        result is Ok <==> size <= MAX_ARCHIVE_BYTES && (asset.digest matches Some(expected)
            ==> expected == *actual),
        result matches Err(error) ==> error == if size > MAX_ARCHIVE_BYTES {
            GithubError::TooLarge
        } else {
            GithubError::DigestMismatch
        },
{
    if size > MAX_ARCHIVE_BYTES {
        return Err(GithubError::TooLarge);
    }
    check_download(&asset.digest, actual)
}

/// Of the files of a release the first one counts that is named like an SDK
/// archive. A release is offered exactly where it is neither a draft nor a
/// prerelease and has such a file.
pub proof fn the_first_sdk_archive_counts(release: ApiRelease) -> (at: int)
    ensures
        at == archive_position(release.assets@),
        0 <= at <= release.assets@.len(),
        at < release.assets@.len() ==> begins(
            ascii_folded(release.assets@[at].name@),
            "streamline-sdk-v"@,
        ) && ends(ascii_folded(release.assets@[at].name@), ".zip"@),
        forall|i: int|
            0 <= i < at ==> !(begins(
                ascii_folded((#[trigger] release.assets@[i]).name@),
                "streamline-sdk-v"@,
            ) && ends(ascii_folded(release.assets@[i].name@), ".zip"@)),
        is_offered(release) <==> !release.draft && !release.prerelease && exists|i: int|
            0 <= i < release.assets@.len() && begins(
                ascii_folded((#[trigger] release.assets@[i]).name@),
                "streamline-sdk-v"@,
            ) && ends(ascii_folded(release.assets@[i].name@), ".zip"@),
{
    let at = the_first_archive(release.assets@);
    if at < release.assets@.len() {
        assert(begins(ascii_folded(release.assets@[at].name@), "streamline-sdk-v"@));
    }
    at
}

proof fn the_first_archive(assets: Seq<ApiAsset>) -> (at: int)
    ensures
        at == archive_position(assets),
        0 <= at <= assets.len(),
        at < assets.len() ==> begins(ascii_folded(assets[at].name@), "streamline-sdk-v"@) && ends(
            ascii_folded(assets[at].name@),
            ".zip"@,
        ),
        forall|i: int|
            0 <= i < at ==> !(begins(
                ascii_folded((#[trigger] assets[i]).name@),
                "streamline-sdk-v"@,
            ) && ends(ascii_folded(assets[i].name@), ".zip"@)),
    decreases assets.len(),
{
    if assets.len() == 0 {
        0
    } else {
        let shorter = assets.drop_last();
        let before = the_first_archive(shorter);
        assert forall|i: int| 0 <= i < shorter.len() implies shorter[i] == #[trigger] assets[i] by {
        }
        archive_position(assets)
    }
}

/// What is offered of a release is the file that counts: its name, its address,
/// its size and its digest, under the tag and the date of the release.
pub proof fn offers_are_those_of_the_release(
    release: ApiRelease,
    published: Option<i64>,
    asset: OfficialAsset,
)
    requires
        describes(release, published, asset),
    ensures
        ({
            let file = release.assets@[archive_position(release.assets@)];
            &&& asset.release.id@ == release.tag_name@
            &&& asset.release.tag@ == release.tag_name@
            &&& asset.release.asset_name@ == file.name@
            &&& asset.download_url@ == file.browser_download_url@
            &&& asset.size == file.size
            &&& published matches Some(second) ==> asset.release.published_unix == second
            &&& published is None ==> asset.release.published_unix == 0
            &&& asset.digest is Some <==> file.digest is Some && begins(
                file.digest->0@,
                "sha256:"@,
            ) && are_hash_digits(file.digest->0@.skip(7))
            &&& asset.digest matches Some(digest) ==> digits_write(file.digest->0@.skip(7), digest)
        }),
{
}

/// The latest asset is one of those given. None of them has a later date, none
/// of the same date has a greater tag, and of those that are alike it is the
/// last.
pub proof fn the_latest_asset_is_the_latest(assets: Seq<OfficialAsset>) -> (at: int)
    requires
        assets.len() > 0,
    ensures
        0 <= at < assets.len(),
        latest_of(assets) == Some(assets[at]),
        forall|i: int|
            0 <= i < assets.len() ==> (#[trigger] assets[i]).release.published_unix
                <= assets[at].release.published_unix,
        forall|i: int|
            0 <= i < assets.len() && (#[trigger] assets[i]).release.published_unix
                == assets[at].release.published_unix ==> !precedes(
                code_points(assets[at].release.tag@),
                code_points(assets[i].release.tag@),
            ),
        forall|i: int|
            at < i < assets.len() ==> (#[trigger] assets[i]).release.published_unix
                < assets[at].release.published_unix || assets[i].release.tag@
                != assets[at].release.tag@,
    decreases assets.len(),
{
    let last = assets.len() - 1;
    let shorter = assets.drop_last();
    assert forall|i: int| 0 <= i < shorter.len() implies shorter[i] == #[trigger] assets[i] by {
    }
    precedes_is_irreflexive(code_points(assets[last].release.tag@));
    if shorter.len() == 0 {
        assert(latest_of(shorter) is None);
        last
    } else {
        let before = the_latest_asset_is_the_latest(shorter);
        let best = assets[before];
        let candidate = assets[last];
        precedes_is_irreflexive(code_points(best.release.tag@));
        precedes_is_irreflexive(Seq::<int>::empty());
        assert(code_points(Seq::<char>::empty()) =~= Seq::<int>::empty());
        if key_less(release_key(candidate), release_key(best)) {
            assert(!precedes(
                code_points(best.release.tag@),
                code_points(candidate.release.tag@),
            ) || candidate.release.published_unix < best.release.published_unix) by {
                if precedes(code_points(best.release.tag@), code_points(candidate.release.tag@))
                    && precedes(
                    code_points(candidate.release.tag@),
                    code_points(best.release.tag@),
                ) {
                    precedes_is_transitive(
                        code_points(best.release.tag@),
                        code_points(candidate.release.tag@),
                        code_points(best.release.tag@),
                    );
                }
            }
            assert(candidate.release.published_unix < best.release.published_unix
                || candidate.release.tag@ != best.release.tag@);
            before
        } else {
            assert forall|i: int| 0 <= i < last && (#[trigger] assets[i]).release.published_unix
                == candidate.release.published_unix implies !precedes(
                code_points(candidate.release.tag@),
                code_points(assets[i].release.tag@),
            ) by {
                let here = code_points(assets[i].release.tag@);
                let there = code_points(best.release.tag@);
                let own = code_points(candidate.release.tag@);
                assert(shorter[i] == assets[i]);
                assert(assets[i].release.published_unix <= best.release.published_unix);
                assert(best.release.published_unix == candidate.release.published_unix);
                if precedes(own, here) {
                    assert(!precedes(there, here));
                    precedes_is_total(there, here);
                    if precedes(here, there) {
                        precedes_is_transitive(own, here, there);
                    }
                    assert(precedes(own, there));
                }
            }
            last
        }
    }
}

/// Assets that are sorted have the later dates first, and of the same date the
/// greater tags. Each is there as often as it was given.
pub proof fn later_releases_come_first(assets: Seq<OfficialAsset>, sorted: Seq<OfficialAsset>) -> (order:
    Seq<usize>)
    requires
        is_latest_first(assets, sorted),
    ensures
        sorted.len() == assets.len(),
        order.len() == assets.len(),
        forall|i: int| 0 <= i < order.len() ==> #[trigger] order[i] < assets.len(),
        forall|i: int, j: int| 0 <= i < j < order.len() ==> order[i] != order[j],
        forall|i: int| 0 <= i < sorted.len() ==> #[trigger] sorted[i] == assets[order[i] as int],
        forall|k: int| 0 <= k < assets.len() ==> sorted.contains(#[trigger] assets[k]),
        forall|i: int, j: int|
            #![trigger sorted[i], sorted[j]]
            0 <= i < j < sorted.len() ==> {
                &&& sorted[i].release.published_unix >= sorted[j].release.published_unix
                &&& sorted[i].release.published_unix == sorted[j].release.published_unix
                    ==> !precedes(
                    code_points(sorted[i].release.tag@),
                    code_points(sorted[j].release.tag@),
                )
            },
{
    let keys = release_keys(assets);
    let order = choose|order: Seq<usize>|
        #![trigger is_stable_order(release_keys(assets), true, order)]
        is_stable_order(release_keys(assets), true, order) && sorted == order.map_values(
            |at: usize| assets[at as int],
        );
    stable_orders_are_sorted(keys, true, order);
    assert forall|k: int| 0 <= k < assets.len() implies sorted.contains(#[trigger] assets[k]) by {
        assert(crate::order::lists(order, k));
        let i = choose|i: int| 0 <= i < order.len() && #[trigger] order[i] == k;
        assert(sorted[i] == assets[k]);
    }
    assert forall|i: int, j: int|
        #![trigger sorted[i], sorted[j]]
        0 <= i < j < sorted.len() implies {
        &&& sorted[i].release.published_unix >= sorted[j].release.published_unix
        &&& sorted[i].release.published_unix == sorted[j].release.published_unix ==> !precedes(
            code_points(sorted[i].release.tag@),
            code_points(sorted[j].release.tag@),
        )
    } by {
        assert(order[i] != order[j]);
        assert(keys[order[i] as int] == release_key(sorted[i]));
        assert(keys[order[j] as int] == release_key(sorted[j]));
    }
    order
}

/// What a page adds to the assets gathered before is one for each release on it
/// that is offered, in order, and nothing else.
pub proof fn every_offered_release_is_gathered(
    before: Seq<OfficialAsset>,
    releases: Seq<ApiRelease>,
    after: Seq<OfficialAsset>,
) -> (offered: Seq<int>)
    requires
        adds_offered(before, releases, after),
    ensures
        picks(offered, releases.len() as int, |i: int| is_offered(releases[i])),
        after.len() == before.len() + offered.len(),
        after.take(before.len() as int) == before,
        forall|k: int|
            #![trigger offered[k]]
            0 <= k < offered.len() ==> describes(
                releases[offered[k]],
                timestamp_second(releases[offered[k]].published_at@),
                after[before.len() + k],
            ),
    decreases releases.len(),
{
    let here = |i: int| is_offered(releases[i]);
    if releases.len() == 0 {
        picks_nothing(here);
        assert(after.take(before.len() as int) =~= before);
        Seq::empty()
    } else {
        let shorter = releases.drop_last();
        let last = releases.len() - 1;
        let then = |i: int| is_offered(shorter[i]);
        if is_offered(releases[last]) {
            let earlier = every_offered_release_is_gathered(before, shorter, after.drop_last());
            assert(after.take(before.len() as int) =~= after.drop_last().take(
                before.len() as int,
            ));
            let offered = picks_grow(earlier, last, then, here);
            assert forall|k: int| #![trigger offered[k]] 0 <= k < offered.len() implies describes(
                releases[offered[k]],
                timestamp_second(releases[offered[k]].published_at@),
                after[before.len() + k],
            ) by {
                if k < earlier.len() {
                    assert(offered[k] == earlier[k]);
                    assert(releases[offered[k]] == shorter[earlier[k]]);
                    assert(after[before.len() + k] == after.drop_last()[before.len() + k]);
                }
            }
            offered
        } else {
            let earlier = every_offered_release_is_gathered(before, shorter, after);
            let offered = picks_grow(earlier, last, then, here);
            assert forall|k: int| #![trigger offered[k]] 0 <= k < offered.len() implies describes(
                releases[offered[k]],
                timestamp_second(releases[offered[k]].published_at@),
                after[before.len() + k],
            ) by {
                assert(releases[offered[k]] == shorter[earlier[k]]);
            }
            offered
        }
    }
}

/// Of the links of a header the first one that leads on counts.
pub proof fn the_first_link_counts(links: Seq<Seq<char>>) -> (at: int)
    ensures
        first_target(links) is Some ==> 0 <= at < links.len() && first_target(links)
            == link_target(links[at]) && (forall|i: int|
            0 <= i < at ==> link_target(#[trigger] links[i]) is None),
        first_target(links) is None ==> forall|i: int|
            0 <= i < links.len() ==> link_target(#[trigger] links[i]) is None,
    decreases links.len(),
{
    if links.len() == 0 {
        0
    } else {
        let shorter = links.drop_last();
        let before = the_first_link_counts(shorter);
        assert forall|i: int| 0 <= i < shorter.len() implies shorter[i] == #[trigger] links[i] by {
        }
        if first_target(shorter) is Some {
            before
        } else {
            links.len() - 1
        }
    }
}

/// A link to the next page is followed to the address that it gives.
pub proof fn written_links_are_followed(address: Seq<char>)
    requires
        !address.contains(';'),
    ensures
        link_target(seq!['<'] + address + ">; rel=\"next\""@) == Some(address),
        link_target(seq!['<'] + address + ">; rel=\"prev\""@) is None,
{
    reveal_strlit(">; rel=\"next\"");
    reveal_strlit(">; rel=\"prev\"");
    reveal_strlit("rel=\"next\"");
    let target = seq!['<'] + address + seq!['>'];
    assert(!target.contains(';')) by {
        if target.contains(';') {
            let i = choose|i: int| 0 <= i < target.len() && target[i] == ';';
            assert(0 < i < target.len() - 1);
            assert(address[i - 1] == ';');
        }
    }
    let next = " rel=\"next\""@;
    let other = " rel=\"prev\""@;
    reveal_strlit(" rel=\"next\"");
    reveal_strlit(" rel=\"prev\"");
    let one = seq!['<'] + address + ">; rel=\"next\""@;
    let two = seq!['<'] + address + ">; rel=\"prev\""@;
    assert(one =~= target.push(';') + next);
    assert(two =~= target.push(';') + other);
    untrimmed(one);
    untrimmed(two);
    untrimmed(target);
    assert(!next.contains(';'));
    assert(!other.contains(';'));
    written_parts_are_split_off(target, ';', next);
    written_parts_are_split_off(target, ';', other);
    written_parts_are_split_off(next, ';', Seq::empty());
    written_parts_are_split_off(other, ';', Seq::empty());
    let pieces = split_at_each(one, ';');
    assert(pieces =~= seq![target, next]);
    let others = split_at_each(two, ';');
    assert(others =~= seq![target, other]);
    let start = trimming_takes_only_white_space(next);
    assert(trimmed(next) == "rel=\"next\""@) by {
        assert(next[0] == ' ');
        assert(is_white(next[0]));
        assert(!is_white(next[1]));
        assert(!is_white(next[next.len() - 1]));
        assert(start == 1);
        assert(trimmed(next) =~= "rel=\"next\""@);
    }
    assert(trimmed(pieces[1]) == "rel=\"next\""@);
    assert(leads_on(pieces));
    assert(target.subrange(1, target.len() - 1) =~= address);
    let begun = trimming_takes_only_white_space(other);
    assert(trimmed(other) != "rel=\"next\""@) by {
        assert(is_white(other[0]));
        assert(!is_white(other[1]));
        assert(!is_white(other[other.len() - 1]));
        assert(begun == 1);
        assert(trimmed(other)[5] == 'p');
    }
}

proof fn untrimmed(text: Seq<char>)
    requires
        text.len() > 0,
        !is_white(text[0]),
        !is_white(text.last()),
    ensures
        trimmed(text) == text,
{
}

/// Pages add up: reading one page and then another gathers what reading them
/// as one would.
pub proof fn pages_add_up(
    before: Seq<OfficialAsset>,
    first: Seq<ApiRelease>,
    between: Seq<OfficialAsset>,
    second: Seq<ApiRelease>,
    after: Seq<OfficialAsset>,
)
    requires
        adds_offered(before, first, between),
        adds_offered(between, second, after),
    ensures
        adds_offered(before, first + second, after),
    decreases second.len(),
{
    let all = first + second;
    if second.len() == 0 {
        assert(all =~= first);
    } else {
        let shorter = second.drop_last();
        assert(all.drop_last() =~= first + shorter);
        assert(all.last() == second.last());
        if is_offered(second.last()) {
            pages_add_up(before, first, between, shorter, after.drop_last());
        } else {
            pages_add_up(before, first, between, shorter, after);
        }
    }
}

/// What a page of releases leads to. An answer that nothing changed ends a
/// refresh on its first page alone; an answer without success, a page that
/// cannot be read and a failed request end it with that error. A page without a
/// link to another ends it with everything gathered, under the mark of the
/// first page; a link leads on to the next page with all that was gathered
/// before and on this page, up to the twentieth page.
pub proof fn pages_lead_on_to_the_end(
    stage: RefreshStage,
    reply: PageReply,
    next: RefreshStage,
)
    requires
        refresh_follows(stage, reply, next),
    ensures
        stage is Ended ==> next == stage,
        stage matches RefreshStage::Reading { page, etag, assets, .. } ==> match reply {
            PageReply::Failed(error) => next == (RefreshStage::Ended { outcome: Err(error) }),
            PageReply::Answered { code, status, etag: given, link, releases, message } => {
                let kept = if page == 1 {
                    given
                } else {
                    etag
                };
                if page == 1 && code == 304 {
                    next == (RefreshStage::Ended { outcome: Ok(ReleaseRefresh::NotModified) })
                } else if code < 200 || code > 299 {
                    next == (RefreshStage::Ended {
                        outcome: Err(GithubError::Status { status, message }),
                    })
                } else {
                    match releases {
                        Err(error) => next == (RefreshStage::Ended { outcome: Err(error) }),
                        Ok(listed) => {
                            &&& link is None ==> (next matches RefreshStage::Ended {
                                outcome: Ok(
                                    ReleaseRefresh::Modified { etag: mark, assets: sorted },
                                ),
                            } && mark == kept && exists|all: Seq<OfficialAsset>| #[trigger]
                                adds_offered(assets@, listed@, all) && is_latest_first(
                                    all,
                                    sorted@,
                                ))
                            &&& next matches RefreshStage::Reading {
                                page: number,
                                url,
                                etag: mark,
                                assets: gathered,
                            } ==> number == page + 1 && number <= 20 && mark == kept
                                && adds_offered(assets@, listed@, gathered@) && (link
                                matches Some(header) && first_target(
                                split_at_each(header@, ','),
                            ) == Some(url@))
                            &&& link matches Some(header) ==> (first_target(
                                split_at_each(header@, ','),
                            ) is Some ==> if page < 20 {
                                next is Reading
                            } else {
                                next == (RefreshStage::Ended {
                                    outcome: Err(GithubError::TooManyPages),
                                })
                            })
                        },
                    }
                }
            },
        },
{
}

} // verus!
