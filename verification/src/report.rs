//! What is shown while and after uploading: the label of each file's
//! progress bar, the total size, and the download URLs.

use vstd::prelude::*;

use crate::config::{items_view, ItemView, UploadConfig, UploadItem};
use crate::text::{chars_of, decimal, push_decimal, push_str, string_from_chars, trim_trailing};

verus! {

/// The index of the last `c` in `s`, or `-1` when there is none.
pub open spec fn last_index_of(s: Seq<char>, c: char) -> int
    decreases s.len(),
{
    if s.len() == 0 {
        -1
    } else if s.last() == c {
        s.len() - 1
    } else {
        last_index_of(s.drop_last(), c)
    }
}

pub proof fn lemma_last_index_of(s: Seq<char>, c: char)
    ensures
        -1 <= last_index_of(s, c) < s.len(),
        last_index_of(s, c) >= 0 ==> s[last_index_of(s, c)] == c,
        forall|i: int| last_index_of(s, c) < i < s.len() ==> s[i] != c,
    decreases s.len(),
{
    if s.len() > 0 && s.last() != c {
        lemma_last_index_of(s.drop_last(), c);
        assert forall|i: int| last_index_of(s, c) < i < s.len() implies s[i] != c by {
            if i < s.len() - 1 {
                assert(s.drop_last()[i] == s[i]);
            }
        }
    }
}

/// What follows the last `/` of `s` (all of `s` when it has none): the
/// file's own name within a remote key.
pub open spec fn after_last_slash(s: Seq<char>) -> Seq<char> {
    s.skip(last_index_of(s, '/') + 1)
}

/// The progress bar label of the file at position `index` (counting from
/// zero) among `total`: `[{index + 1}/{total}] {name}`, where the name is
/// what follows the last `/` of the remote key.
pub open spec fn label_text(index: nat, total: nat, remote_key: Seq<char>) -> Seq<char> {
    seq!['['] + decimal(index + 1) + seq!['/'] + decimal(total) + seq![']', ' '] + after_last_slash(
        remote_key,
    )
}

/// The label shown in front of the progress bar of one file.
pub fn file_label(index: usize, total: usize, remote_key: &str) -> (label: String)
    requires
        index < total,
    ensures
        label@ == label_text(index as nat, total as nat, remote_key@),
{
    let key = chars_of(remote_key);
    let mut start: usize = key.len();
    proof {
        lemma_last_index_of(key@, '/');
    }
    while start > 0 && key[start - 1] != '/'
        invariant
            start <= key@.len(),
            key@ == remote_key@,
            last_index_of(key@, '/') < start,
            -1 <= last_index_of(key@, '/'),
            last_index_of(key@, '/') >= 0 ==> key@[last_index_of(key@, '/')] == '/',
            forall|i: int| start <= i < key@.len() ==> key@[i] != '/',
        decreases start,
    {
        start = start - 1;
    }
    assert(start as int == last_index_of(key@, '/') + 1) by {
        if start > 0 {
            assert(key@[start - 1] == '/');
        }
    }
    let mut cs: Vec<char> = Vec::new();
    cs.push('[');
    push_decimal(&mut cs, (index + 1) as u64);
    cs.push('/');
    push_decimal(&mut cs, total as u64);
    cs.push(']');
    cs.push(' ');
    let ghost head = cs@;
    let mut i: usize = start;
    while i < key.len()
        invariant
            start <= i <= key@.len(),
            cs@ == head + key@.subrange(start as int, i as int),
        decreases key@.len() - i,
    {
        cs.push(key[i]);
        i = i + 1;
        assert(key@.subrange(start as int, i as int) =~= key@.subrange(start as int, i - 1).push(
            key@[i - 1],
        ));
    }
    assert(key@.subrange(start as int, key@.len() as int) =~= after_last_slash(remote_key@));
    assert(cs@ =~= label_text(index as nat, total as nat, remote_key@));
    string_from_chars(cs.as_slice())
}

/// The sum of the sizes of `items`.
pub open spec fn total_size(items: Seq<ItemView>) -> nat
    decreases items.len(),
{
    if items.len() == 0 {
        0
    } else {
        total_size(items.drop_last()) + items.last().size as nat
    }
}

/// The total number of bytes to upload, when it fits in a `u64`.
pub fn total_bytes(items: &Vec<UploadItem>) -> (total: Option<u64>)
    ensures
        match total {
            Some(t) => t as nat == total_size(items_view(items@)),
            None => total_size(items_view(items@)) > u64::MAX,
        },
{
    let ghost v = items_view(items@);
    let mut sum: u64 = 0;
    let mut i: usize = 0;
    assert(v.take(0) =~= Seq::<ItemView>::empty());
    while i < items.len()
        invariant
            i <= items@.len(),
            v == items_view(items@),
            sum as nat == total_size(v.take(i as int)),
        decreases items@.len() - i,
    {
        assert(v.take(i + 1).drop_last() =~= v.take(i as int));
        assert(v.take(i + 1).last() == items@[i as int]@);
        match sum.checked_add(items[i].size) {
            Some(s) => sum = s,
            None => {
                proof {
                    lemma_total_size_monotone(v, i + 1);
                }
                return None;
            },
        }
        i = i + 1;
    }
    assert(v.take(i as int) =~= v);
    Some(sum)
}

/// The total of a prefix of a list is at most the total of the list.
proof fn lemma_total_size_monotone(v: Seq<ItemView>, n: int)
    requires
        0 <= n <= v.len(),
    ensures
        total_size(v.take(n)) <= total_size(v),
    decreases v.len() - n,
{
    if n < v.len() {
        lemma_total_size_monotone(v, n + 1);
        assert(v.take(n + 1).drop_last() =~= v.take(n));
    } else {
        assert(v.take(n) =~= v);
    }
}

/// `{endpoint without trailing slashes}/{bucket}/{key}`: where an object
/// can be downloaded (path-style addressing).
pub open spec fn object_url(endpoint: Seq<char>, bucket: Seq<char>, key: Seq<char>) -> Seq<char> {
    trim_trailing(endpoint, '/') + seq!['/'] + bucket + seq!['/'] + key
}

/// The URL of an object is the endpoint with its trailing slashes dropped,
/// a `/`, the bucket, a `/` and the key: the endpoint's part kept is a prefix
/// of it that does not end in `/`, after which the endpoint holds only `/`.
pub proof fn law_object_url_shape(endpoint: Seq<char>, bucket: Seq<char>, key: Seq<char>)
    ensures
        exists|n: int|
            #![trigger endpoint.take(n)]
            0 <= n <= endpoint.len() && (forall|i: int| n <= i < endpoint.len() ==> endpoint[i]
                == '/') && (n == 0 || endpoint[n - 1] != '/') && object_url(endpoint, bucket, key)
                == endpoint.take(n) + seq!['/'] + bucket + seq!['/'] + key,
{
    crate::text::lemma_trim_trailing(endpoint, '/');
    let n = trim_trailing(endpoint, '/').len() as int;
    assert(endpoint.take(n) == trim_trailing(endpoint, '/'));
}

/// The URL of the object stored under `key` in `bucket` at `endpoint`.
pub fn download_url(endpoint: &str, bucket: &str, key: &str) -> (url: String)
    ensures
        url@ == object_url(endpoint@, bucket@, key@),
        exists|n: int|
            #![trigger endpoint@.take(n)]
            0 <= n <= endpoint@.len() && (forall|i: int| n <= i < endpoint@.len() ==> endpoint@[i]
                == '/') && (n == 0 || endpoint@[n - 1] != '/') && url@ == endpoint@.take(n) + seq![
                '/',
            ] + bucket@ + seq!['/'] + key@,
{
    proof {
        law_object_url_shape(endpoint@, bucket@, key@);
    }
    let trimmed = crate::text::trim_end_char(endpoint, '/');
    let mut cs: Vec<char> = Vec::new();
    push_str(&mut cs, trimmed.as_str());
    cs.push('/');
    push_str(&mut cs, bucket);
    cs.push('/');
    push_str(&mut cs, key);
    assert(cs@ =~= object_url(endpoint@, bucket@, key@));
    string_from_chars(cs.as_slice())
}

/// The download URL of every item, in order.
pub fn download_urls(config: &UploadConfig) -> (urls: Vec<String>)
    ensures
        urls@.len() == config.items@.len(),
        forall|i: int|
            0 <= i < urls@.len() ==> #[trigger] urls@[i]@ == object_url(
                config.endpoint@,
                config.bucket@,
                config.items@[i].remote_key@,
            ),
{
    let mut urls: Vec<String> = Vec::new();
    let mut i: usize = 0;
    while i < config.items.len()
        invariant
            i <= config.items@.len(),
            urls@.len() == i,
            forall|j: int|
                0 <= j < i ==> #[trigger] urls@[j]@ == object_url(
                    config.endpoint@,
                    config.bucket@,
                    config.items@[j].remote_key@,
                ),
        decreases config.items@.len() - i,
    {
        let url = download_url(
            config.endpoint.as_str(),
            config.bucket.as_str(),
            config.items[i].remote_key.as_str(),
        );
        urls.push(url);
        i = i + 1;
    }
    urls
}

/// The URL under which all the uploaded objects lie: that of the prefix.
pub fn prefix_url(config: &UploadConfig) -> (url: String)
    ensures
        url@ == object_url(config.endpoint@, config.bucket@, config.prefix@),
{
    download_url(config.endpoint.as_str(), config.bucket.as_str(), config.prefix.as_str())
}

} // verus!
