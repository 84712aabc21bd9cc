//! Choosing what to download from the releases of a repository.

use crate::download::{download, Download, DownloadModel};
use crate::error::ResolveError;
use vstd::prelude::*;
use vstd::std_specs::iter::IteratorSpec;
use vstd::string::{StrSliceExecFns, StringExecFns, StringSliceAdditionalSpecFns};
use vstd::utf8::encode_utf8;

verus! {

/// A file attached to a release.
#[derive(Debug)]
pub struct Asset {
    pub name: String,
    pub browser_download_url: String,
}

/// A release of a repository.
#[derive(Debug)]
pub struct Release {
    /// When the release was published, as the text that the listing gives: a
    /// timestamp whose order in time is its order as text.
    pub published_at: String,
    pub assets: Vec<Asset>,
}

/// What an `Asset` says.
pub struct AssetView {
    pub name: Seq<char>,
    pub browser_download_url: Seq<char>,
}

/// What a `Release` says.
pub struct ReleaseView {
    pub published_at: Seq<char>,
    pub assets: Seq<AssetView>,
}

impl View for Asset {
    type V = AssetView;

    open spec fn view(&self) -> AssetView {
        AssetView { name: self.name@, browser_download_url: self.browser_download_url@ }
    }
}

impl View for Release {
    type V = ReleaseView;

    open spec fn view(&self) -> ReleaseView {
        ReleaseView {
            published_at: self.published_at@,
            assets: Seq::new(self.assets@.len(), |i: int| self.assets@[i]@),
        }
    }
}

/// What a list of releases says.
pub open spec fn releases_view(releases: Seq<Release>) -> Seq<ReleaseView> {
    Seq::new(releases.len(), |i: int| releases[i]@)
}

/// `a` comes no later than `b` in the order of texts: byte by byte, a text
/// before each of its extensions.
pub open spec fn bytes_le(a: Seq<u8>, b: Seq<u8>) -> bool
    decreases a.len(),
{
    if a.len() == 0 {
        true
    } else if b.len() == 0 {
        false
    } else if a[0] != b[0] {
        a[0] < b[0]
    } else {
        bytes_le(a.drop_first(), b.drop_first())
    }
}

/// The timestamp `a` is no later than the timestamp `b`.
pub open spec fn no_later(a: Seq<char>, b: Seq<char>) -> bool {
    bytes_le(encode_utf8(a), encode_utf8(b))
}

/// Every text is no later than itself.
pub proof fn lemma_bytes_le_reflexive(a: Seq<u8>)
    ensures
        bytes_le(a, a),
    decreases a.len(),
{
    if a.len() > 0 {
        lemma_bytes_le_reflexive(a.drop_first());
    }
}

/// Of two texts, one is no later than the other.
pub proof fn lemma_bytes_le_total(a: Seq<u8>, b: Seq<u8>)
    ensures
        bytes_le(a, b) || bytes_le(b, a),
    decreases a.len(),
{
    if a.len() > 0 && b.len() > 0 && a[0] == b[0] {
        lemma_bytes_le_total(a.drop_first(), b.drop_first());
    }
}

/// The order of texts passes along.
pub proof fn lemma_bytes_le_transitive(a: Seq<u8>, b: Seq<u8>, c: Seq<u8>)
    requires
        bytes_le(a, b),
        bytes_le(b, c),
    ensures
        bytes_le(a, c),
    decreases a.len(),
{
    if a.len() > 0 && b.len() > 0 && c.len() > 0 && a[0] == b[0] && b[0] == c[0] {
        lemma_bytes_le_transitive(a.drop_first(), b.drop_first(), c.drop_first());
    }
}

/// Whether the text `a` comes no later than the text `b`.
pub fn text_no_later(a: &str, b: &str) -> (le: bool)
    ensures
        le == no_later(a@, b@),
{
    let x = a.as_bytes();
    let y = b.as_bytes();
    let mut i: usize = 0;
    assert(x@.skip(0) =~= x@ && y@.skip(0) =~= y@);
    while i < x.len() && i < y.len()
        invariant
            x@ == encode_utf8(a@),
            y@ == encode_utf8(b@),
            i <= x.len(),
            i <= y.len(),
            bytes_le(x@, y@) == bytes_le(x@.skip(i as int), y@.skip(i as int)),
        decreases x.len() - i,
    {
        assert(x@.skip(i as int).drop_first() =~= x@.skip(i + 1));
        assert(y@.skip(i as int).drop_first() =~= y@.skip(i + 1));
        if x[i] != y[i] {
            assert(x@.skip(i as int)[0] == x@[i as int] && y@.skip(i as int)[0] == y@[i as int]);
            return x[i] < y[i];
        }
        i += 1;
    }
    x.len() <= y.len()
}

/// `i` is the place of the latest release of the list: none is later, and of
/// several published at the same latest time it is the last.
pub open spec fn is_latest(releases: Seq<ReleaseView>, i: int) -> bool {
    &&& 0 <= i < releases.len()
    &&& forall|j: int|
        0 <= j < releases.len() ==> no_later(
            (#[trigger] releases[j]).published_at,
            releases[i].published_at,
        )
    &&& forall|j: int|
        i < j < releases.len() ==> !no_later(
            releases[i].published_at,
            (#[trigger] releases[j]).published_at,
        )
}

/// Finds the latest release: the one with the greatest `published_at`, and of
/// several such the last in the list. An empty list has none.
pub fn latest_release(releases: &Vec<Release>) -> (found: Option<usize>)
    ensures
        match found {
            Some(i) => is_latest(releases_view(releases@), i as int),
            None => releases@.len() == 0,
        },
{
    if releases.len() == 0 {
        return None;
    }
    let ghost all = releases_view(releases@);
    let mut best: usize = 0;
    let mut i: usize = 1;
    proof {
        lemma_bytes_le_reflexive(encode_utf8(all[0].published_at));
    }
    while i < releases.len()
        invariant
            all == releases_view(releases@),
            0 <= best < i <= releases.len(),
            forall|j: int|
                0 <= j < i ==> no_later((#[trigger] all[j]).published_at, all[best as int].published_at),
            forall|j: int|
                best < j < i ==> !no_later(
                    all[best as int].published_at,
                    (#[trigger] all[j]).published_at,
                ),
        decreases releases.len() - i,
    {
        let ghost old_key = encode_utf8(all[best as int].published_at);
        let ghost new_key = encode_utf8(all[i as int].published_at);
        if text_no_later(releases[best].published_at.as_str(), releases[i].published_at.as_str()) {
            proof {
                assert forall|j: int| 0 <= j < i + 1 implies no_later(
                    (#[trigger] all[j]).published_at,
                    all[i as int].published_at,
                ) by {
                    if j < i {
                        lemma_bytes_le_transitive(encode_utf8(all[j].published_at), old_key, new_key);
                    } else {
                        lemma_bytes_le_reflexive(new_key);
                    }
                }
            }
            best = i;
        } else {
            proof {
                lemma_bytes_le_total(old_key, new_key);
            }
        }
        i += 1;
    }
    Some(best)
}

/// A list of releases has at most one latest release.
pub proof fn lemma_latest_is_unique(releases: Seq<ReleaseView>, i: int, j: int)
    requires
        is_latest(releases, i),
        is_latest(releases, j),
    ensures
        i == j,
{
    if i < j {
        assert(no_later(releases[i].published_at, releases[j].published_at));
    } else if j < i {
        assert(no_later(releases[j].published_at, releases[i].published_at));
    }
}

/// The predicate `f` has answered yes to a text that reads `name`.
pub open spec fn accepts<K: Fn(&str) -> bool>(f: K, name: Seq<char>) -> bool {
    exists|s: &str| s@ == name && call_ensures(f, (s,), true)
}

/// The predicate `f` has answered no to a text that reads `name`.
pub open spec fn rejects<K: Fn(&str) -> bool>(f: K, name: Seq<char>) -> bool {
    exists|s: &str| s@ == name && call_ensures(f, (s,), false)
}

/// `k` is the place of the first of `assets` whose name `f` accepts.
pub open spec fn is_first_match<K: Fn(&str) -> bool>(assets: Seq<AssetView>, f: K, k: int) -> bool {
    &&& 0 <= k < assets.len()
    &&& accepts(f, assets[k].name)
    &&& forall|j: int| 0 <= j < k ==> rejects(f, (#[trigger] assets[j]).name)
}

/// `f` accepts the name of none of `assets`.
pub open spec fn no_match<K: Fn(&str) -> bool>(assets: Seq<AssetView>, f: K) -> bool {
    forall|j: int| 0 <= j < assets.len() ==> rejects(f, (#[trigger] assets[j]).name)
}

/// Finds the first asset whose name the predicate accepts, asking it about
/// each name in turn up to that one.
pub fn find_asset<K: Fn(&str) -> bool>(assets: &Vec<Asset>, is_valid_file: K) -> (found: Option<
    usize,
>)
    requires
        forall|s: &str| call_requires(is_valid_file, (s,)),
    ensures
        match found {
            Some(k) => is_first_match(
                Seq::new(assets@.len(), |i: int| assets@[i]@),
                is_valid_file,
                k as int,
            ),
            None => no_match(Seq::new(assets@.len(), |i: int| assets@[i]@), is_valid_file),
        },
{
    let ghost all = Seq::new(assets@.len(), |i: int| assets@[i]@);
    let mut i: usize = 0;
    while i < assets.len()
        invariant
            all == Seq::new(assets@.len(), |i: int| assets@[i]@),
            i <= assets.len(),
            forall|s: &str| call_requires(is_valid_file, (s,)),
            forall|j: int| 0 <= j < i ==> rejects(is_valid_file, (#[trigger] all[j]).name),
        decreases assets.len() - i,
    {
        let name = assets[i].name.as_str();
        let valid = is_valid_file(name);
        assert(call_ensures(is_valid_file, (name,), valid));
        if valid {
            return Some(i);
        }
        i += 1;
    }
    None
}

/// `k` is where the last segment of `repo` starts: right after its last slash,
/// or at its start if it has none.
pub open spec fn is_last_segment_start(repo: Seq<char>, k: int) -> bool {
    &&& 0 <= k <= repo.len()
    &&& k > 0 ==> repo[k - 1] == '/'
    &&& forall|j: int| k <= j < repo.len() ==> repo[j] != '/'
}

/// What follows the last slash of `repo`; all of `repo` if it has none.
pub open spec fn last_segment(repo: Seq<char>) -> Seq<char> {
    repo.skip(choose|k: int| is_last_segment_start(repo, k))
}

/// The name under which a repository is shown: the last segment of
/// `owner/name`.
pub fn display_name(repo: &str) -> (name: String)
    ensures
        name@ == last_segment(repo@),
{
    let total = repo.unicode_len();
    let mut start: usize = 0;
    let mut count: usize = 0;
    for c in it: repo.chars()
        invariant
            it.seq() == repo@,
            total == repo@.len(),
            count == it.index(),
            is_last_segment_start(repo@.take(count as int), start as int),
    {
        count += 1;
        if c == '/' {
            start = count;
        }
    }
    let found = repo.substring_char(start, total);
    proof {
        assert(repo@.take(total as int) =~= repo@);
        let k = choose|k: int| is_last_segment_start(repo@, k);
        if k < start {
            assert(repo@[start - 1] == '/');
        } else if start < k {
            assert(repo@[k - 1] == '/');
        }
        assert(repo@.subrange(start as int, total as int) =~= repo@.skip(start as int));
    }
    String::from_str(found)
}

/// The character is white space as Unicode defines it: it has the property
/// `White_Space`.
pub open spec fn is_white_space(c: char) -> bool {
    let n = c as u32;
    ||| 0x0009 <= n <= 0x000D
    ||| n == 0x0020
    ||| n == 0x0085
    ||| n == 0x00A0
    ||| n == 0x1680
    ||| 0x2000 <= n <= 0x200A
    ||| n == 0x2028
    ||| n == 0x2029
    ||| n == 0x202F
    ||| n == 0x205F
    ||| n == 0x3000
}

/// From `start` up to `end` lies what is left of `text` once the white space
/// at its two ends is cut off; of a text that is all white space, nothing at its
/// end.
pub open spec fn is_trim_range(text: Seq<char>, start: int, end: int) -> bool {
    &&& 0 <= start <= end <= text.len()
    &&& forall|i: int| 0 <= i < start ==> is_white_space(#[trigger] text[i])
    &&& forall|i: int| end <= i < text.len() ==> is_white_space(#[trigger] text[i])
    &&& if start < end {
        !is_white_space(text[start]) && !is_white_space(text[end - 1])
    } else {
        start == text.len()
    }
}

/// The text without the white space at its two ends.
pub open spec fn trimmed(text: Seq<char>) -> Seq<char> {
    let (start, end) = choose|start: int, end: int| is_trim_range(text, start, end);
    text.subrange(start, end)
}

proof fn lemma_trim_range_is_unique(text: Seq<char>, s1: int, e1: int, s2: int, e2: int)
    requires
        is_trim_range(text, s1, e1),
        is_trim_range(text, s2, e2),
    ensures
        s1 == s2,
        e1 == e2,
{
    if s1 < e1 && s2 < e2 {
        if s1 < s2 {
            assert(is_white_space(text[s1]));
        } else if s2 < s1 {
            assert(is_white_space(text[s2]));
        }
        if e1 < e2 {
            assert(is_white_space(text[e2 - 1]));
        } else if e2 < e1 {
            assert(is_white_space(text[e1 - 1]));
        }
    } else if s1 < e1 {
        assert(is_white_space(text[s1]));
    } else if s2 < e2 {
        assert(is_white_space(text[s2]));
    }
}

fn white_space(c: char) -> (b: bool)
    ensures
        b == is_white_space(c),
{
    let n: u32 = c as u32;
    (0x0009 <= n && n <= 0x000D) || n == 0x0020 || n == 0x0085 || n == 0x00A0 || n == 0x1680 || (
    0x2000 <= n && n <= 0x200A) || n == 0x2028 || n == 0x2029 || n == 0x202F || n == 0x205F || n
        == 0x3000
}

/// The hash that a hash file states: its text without the white space around
/// it, a final line break included.
pub fn expected_hash_from(text: &str) -> (hash: String)
    ensures
        hash@ == trimmed(text@),
{
    let total = text.unicode_len();
    let mut start: usize = 0;
    let mut end: usize = 0;
    let mut count: usize = 0;
    let mut found = false;
    for c in it: text.chars()
        invariant
            it.seq() == text@,
            total == text@.len(),
            count == it.index(),
            !found ==> start == 0 && end == 0 && forall|i: int|
                0 <= i < count ==> is_white_space(#[trigger] text@[i]),
            found ==> {
                &&& start < end <= count
                &&& forall|i: int| 0 <= i < start ==> is_white_space(#[trigger] text@[i])
                &&& !is_white_space(text@[start as int])
                &&& !is_white_space(text@[end - 1])
                &&& forall|i: int| end <= i < count ==> is_white_space(#[trigger] text@[i])
            },
    {
        if !white_space(c) {
            if !found {
                found = true;
                start = count;
            }
            end = count + 1;
        }
        count += 1;
    }
    let ghost (s, e) = choose|s: int, e: int| is_trim_range(text@, s, e);
    if found {
        proof {
            assert(is_trim_range(text@, start as int, end as int));
            lemma_trim_range_is_unique(text@, start as int, end as int, s, e);
        }
        String::from_str(text.substring_char(start, end))
    } else {
        proof {
            assert(is_trim_range(text@, total as int, total as int));
            lemma_trim_range_is_unique(text@, total as int, total as int, s, e);
            assert(text@.subrange(s, e) =~= Seq::<char>::empty());
        }
        String::new()
    }
}

/// White space around a text is what trimming takes away, and nothing else: a
/// text that neither starts nor ends with white space comes back as it was
/// when white space is put before and after it. So a hash followed by a line
/// break is read as the hash.
pub proof fn lemma_trimmed_of_padded(before: Seq<char>, core: Seq<char>, after: Seq<char>)
    requires
        forall|i: int| 0 <= i < before.len() ==> is_white_space(#[trigger] before[i]),
        forall|i: int| 0 <= i < after.len() ==> is_white_space(#[trigger] after[i]),
        core.len() > 0 ==> !is_white_space(core.first()) && !is_white_space(core.last()),
    ensures
        trimmed(before + core + after) == core,
{
    let text = before + core + after;
    let (s, e) = choose|s: int, e: int| is_trim_range(text, s, e);
    let start = before.len() as int;
    let end = start + core.len();
    if core.len() > 0 {
        assert(text[start] == core.first() && text[end - 1] == core.last());
        assert forall|i: int| end <= i < text.len() implies is_white_space(#[trigger] text[i]) by {
            assert(text[i] == after[i - end]);
        }
        assert(is_trim_range(text, start, end));
        lemma_trim_range_is_unique(text, start, end, s, e);
        assert(text.subrange(start, end) =~= core);
    } else {
        assert forall|i: int| 0 <= i < text.len() implies is_white_space(#[trigger] text[i]) by {
            if i < start {
                assert(text[i] == before[i]);
            } else {
                assert(text[i] == after[i - end]);
            }
        }
        assert(is_trim_range(text, text.len() as int, text.len() as int));
        lemma_trim_range_is_unique(text, text.len() as int, text.len() as int, s, e);
        assert(text.subrange(s, e) =~= core);
    }
}

/// What was chosen to download.
#[derive(Debug)]
pub struct Selection {
    /// The name to show in progress messages.
    pub display_name: String,
    /// Where the chosen asset is to be had.
    pub url: String,
}

/// The choice among `releases` is the asset `k` of the release `i`: the first
/// accepted asset of the latest release.
pub open spec fn is_choice<K: Fn(&str) -> bool>(
    releases: Seq<ReleaseView>,
    f: K,
    i: int,
    k: int,
) -> bool {
    is_latest(releases, i) && is_first_match(releases[i].assets, f, k)
}

/// Chooses what to download for the repository `repo`, given as `owner/name`:
/// of the latest of `releases`, the first asset whose name `is_valid_file`
/// accepts. It is shown under the last segment of `repo`.
pub fn select_asset<K: Fn(&str) -> bool>(repo: &str, releases: &Vec<Release>, is_valid_file: K) -> (chosen:
    Result<Selection, ResolveError>)
    requires
        forall|s: &str| call_requires(is_valid_file, (s,)),
    ensures
        match chosen {
            Ok(selection) => exists|i: int, k: int|
                {
                    &&& #[trigger] is_choice(releases_view(releases@), is_valid_file, i, k)
                    &&& selection.url@ == releases_view(
                        releases@,
                    )[i].assets[k].browser_download_url
                    &&& selection.display_name@ == last_segment(repo@)
                },
            Err(ResolveError::NoRelease) => releases@.len() == 0,
            Err(ResolveError::NoAsset) => exists|i: int|
                #[trigger] is_latest(releases_view(releases@), i) && no_match(
                    releases_view(releases@)[i].assets,
                    is_valid_file,
                ),
        },
{
    match latest_release(releases) {
        None => Err(ResolveError::NoRelease),
        Some(i) => {
            let release = &releases[i];
            assert(releases_view(releases@)[i as int].assets == Seq::new(
                release.assets@.len(),
                |j: int| release.assets@[j]@,
            ));
            match find_asset(&release.assets, is_valid_file) {
                None => Err(ResolveError::NoAsset),
                Some(k) => {
                    assert(is_choice(releases_view(releases@), is_valid_file, i as int, k as int));
                    Ok(
                        Selection {
                            display_name: display_name(repo),
                            url: release.assets[k].browser_download_url.clone(),
                        },
                    )
                },
            }
        },
    }
}

/// Prepares the download of the latest release of `repo` to the file `path`.
///
/// `releases` is the listing of the repository's releases and `hash_text`, if
/// there is one, the body of the hash file that goes with the asset. The asset
/// is chosen as `select_asset` says; the expected hash is `hash_text` without
/// the white space around it.
pub fn download_github<K: Fn(&str) -> bool>(
    repo: &str,
    releases: &Vec<Release>,
    is_valid_file: K,
    path: &str,
    hash_text: Option<String>,
) -> (prepared: Result<Download, ResolveError>)
    requires
        forall|s: &str| call_requires(is_valid_file, (s,)),
    ensures
        match prepared {
            Ok(d) => exists|i: int, k: int|
                {
                    &&& #[trigger] is_choice(releases_view(releases@), is_valid_file, i, k)
                    &&& d@ == DownloadModel::initial(
                        last_segment(repo@),
                        releases_view(releases@)[i].assets[k].browser_download_url,
                        path@,
                        match hash_text {
                            Some(text) => Some(trimmed(text@)),
                            None => None,
                        },
                    )
                },
            Err(ResolveError::NoRelease) => releases@.len() == 0,
            Err(ResolveError::NoAsset) => exists|i: int|
                #[trigger] is_latest(releases_view(releases@), i) && no_match(
                    releases_view(releases@)[i].assets,
                    is_valid_file,
                ),
        },
{
    match select_asset(repo, releases, is_valid_file) {
        Err(e) => Err(e),
        Ok(selection) => {
            let expected_hash = match hash_text {
                Some(text) => Some(expected_hash_from(text.as_str())),
                None => None,
            };
            Ok(
                download(
                    selection.display_name.as_str(),
                    selection.url.as_str(),
                    path,
                    expected_hash,
                ),
            )
        },
    }
}

} // verus!
