//! Properties that relate several functions of the library, or hold of
//! every outcome of resolving.

use vstd::prelude::*;
use vstd::utf8::{decode_utf8, valid_utf8};

use crate::clock::{is_digit, law_stamp_shape, stamp_text, UtcTime};
use crate::config::{
    default_prefix_head, is_default_prefix,
    entry_outcome, option_seq, path_outcome, paths_outcome, remote_key_for, utf8_file_name, walk_outcome,
    ItemView, PathObservationView, UploadConfig, WalkEntryView, WalkStepView,
};
use crate::paths::{joined, lemma_relative_part_of_joined};
use crate::report::object_url;
use crate::text::{lemma_trim_trailing, trim_trailing};

verus! {

/// Whether `key` is `prefix` followed by `/` and something more.
pub open spec fn key_under(prefix: Seq<char>, key: Seq<char>) -> bool {
    key.len() > prefix.len() && key.take(prefix.len() + 1int) == prefix.push('/')
}

proof fn lemma_key_for_is_under(prefix: Seq<char>, name: Seq<char>)
    ensures
        key_under(prefix, remote_key_for(prefix, name)),
{
    assert(remote_key_for(prefix, name).take(prefix.len() + 1int) =~= prefix.push('/'));
}

proof fn lemma_walk_keys_under(prefix: Seq<char>, base: Seq<u8>, walk: Seq<WalkStepView>)
    ensures
        forall|i: int|
            0 <= i < walk_outcome(prefix, base, walk).0.len() ==> key_under(
                prefix,
                #[trigger] walk_outcome(prefix, base, walk).0[i].remote_key,
            ),
    decreases walk.len(),
{
    if walk.len() > 0 {
        lemma_walk_keys_under(prefix, base, walk.drop_first());
        let rest = walk_outcome(prefix, base, walk.drop_first());
        match walk[0] {
            WalkStepView::Entry(e) => match entry_outcome(prefix, base, e) {
                Ok(found) => {
                    let out = walk_outcome(prefix, base, walk);
                    assert(out.0 == option_seq(found) + rest.0);
                    assert forall|i: int| 0 <= i < out.0.len() implies key_under(
                        prefix,
                        #[trigger] out.0[i].remote_key,
                    ) by {
                        if i < option_seq(found).len() {
                            let item = found.unwrap();
                            let rel = crate::paths::relative_part(e.path, base).unwrap();
                            assert(item.remote_key == remote_key_for(prefix, decode_utf8(rel)));
                            lemma_key_for_is_under(prefix, decode_utf8(rel));
                        } else {
                            assert(out.0[i] == rest.0[i - option_seq(found).len()]);
                        }
                    }
                },
                _ => {},
            },
            _ => {},
        }
    }
}

/// Every file found is stored below the prefix: its key is the prefix, a
/// `/`, and more.
pub proof fn law_keys_under_prefix(
    prefix: Seq<char>,
    paths: Seq<Seq<u8>>,
    obs: Seq<PathObservationView>,
)
    ensures
        forall|i: int|
            0 <= i < paths_outcome(prefix, paths, obs).0.len() ==> key_under(
                prefix,
                #[trigger] paths_outcome(prefix, paths, obs).0[i].remote_key,
            ),
    decreases paths.len(),
{
    if paths.len() > 0 && obs.len() > 0 {
        law_keys_under_prefix(prefix, paths.drop_first(), obs.drop_first());
        let first = path_outcome(prefix, paths[0], obs[0]);
        let rest = paths_outcome(prefix, paths.drop_first(), obs.drop_first());
        let out = paths_outcome(prefix, paths, obs);
        assert forall|i: int| 0 <= i < first.0.len() implies key_under(
            prefix,
            #[trigger] first.0[i].remote_key,
        ) by {
            match obs[0] {
                PathObservationView::Dir { walk } => {
                    lemma_walk_keys_under(prefix, paths[0], walk);
                },
                PathObservationView::File { size } => {
                    lemma_key_for_is_under(prefix, utf8_file_name(paths[0]).unwrap());
                },
                _ => {},
            }
        }
        if first.1 is None {
            assert forall|i: int| 0 <= i < out.0.len() implies key_under(
                prefix,
                #[trigger] out.0[i].remote_key,
            ) by {
                if i >= first.0.len() {
                    assert(out.0[i] == rest.0[i - first.0.len()]);
                } else {
                    assert(out.0[i] == first.0[i]);
                }
            }
        }
    }
}

/// A regular file met while walking `base`, at `base` joined with `rel`,
/// is stored under the prefix at that same relative path: the directory's
/// structure is kept.
pub proof fn law_walk_keeps_relative_path(
    prefix: Seq<char>,
    base: Seq<u8>,
    rel: Seq<u8>,
    size: u64,
)
    requires
        valid_utf8(rel),
    ensures
        entry_outcome(
            prefix,
            base,
            WalkEntryView { path: joined(base, rel), is_file: true, size: Ok(size) },
        ) == Ok::<Option<ItemView>, crate::error::UploadErrorView>(
            Some(
                ItemView {
                    local_path: joined(base, rel),
                    remote_key: remote_key_for(prefix, decode_utf8(rel)),
                    size,
                },
            ),
        ),
{
    lemma_relative_part_of_joined(base, rel);
}

/// The download URL of an object whose key lies below the prefix is the
/// URL of the prefix followed by `/` and the rest of the key.
pub proof fn law_download_url_below_prefix_url(
    endpoint: Seq<char>,
    bucket: Seq<char>,
    prefix: Seq<char>,
    key: Seq<char>,
)
    requires
        key_under(prefix, key),
    ensures
        object_url(endpoint, bucket, key) == object_url(endpoint, bucket, prefix) + seq!['/']
            + key.skip(prefix.len() + 1int),
{
    assert(key =~= prefix.push('/') + key.skip(prefix.len() + 1int)) by {
        assert forall|i: int| 0 <= i < key.len() implies key[i] == (prefix.push('/') + key.skip(
            prefix.len() + 1int,
        ))[i] by {
            if i <= prefix.len() {
                assert(key.take(prefix.len() + 1int)[i] == key[i]);
            }
        }
    }
    assert(object_url(endpoint, bucket, key) =~= object_url(endpoint, bucket, prefix) + seq!['/']
        + key.skip(prefix.len() + 1int));
}

/// A given prefix is used without its trailing slashes: whatever number of
/// them it has, the result is the same and does not end in one, and using
/// that result again as the prefix leaves it unchanged.
pub proof fn law_given_prefix_trimmed(p: Seq<char>)
    ensures
        trim_trailing(p.push('/'), '/') == trim_trailing(p, '/'),
        trim_trailing(p, '/').len() > 0 ==> trim_trailing(p, '/').last() != '/',
        trim_trailing(trim_trailing(p, '/'), '/') == trim_trailing(p, '/'),
{
    assert(p.push('/').drop_last() =~= p);
    lemma_trim_trailing(p, '/');
}

/// The debug text of the settings does not depend on the credentials: two
/// settings that differ only in their access and secret keys print the same.
pub proof fn law_debug_hides_credentials(a: UploadConfig, b: UploadConfig)
    requires
        a.endpoint@ == b.endpoint@,
        a.bucket@ == b.bucket@,
        a.region@ == b.region@,
        a.prefix@ == b.prefix@,
        a.timeout == b.timeout,
        a.concurrency == b.concurrency,
        a.items@.len() == b.items@.len(),
    ensures
        a.debug_view() == b.debug_view(),
{
}

/// Resolving fails fast: once the paths looked at so far end in an error,
/// more paths after them change neither the error nor what was collected.
pub proof fn law_first_error_stands(
    prefix: Seq<char>,
    paths: Seq<Seq<u8>>,
    obs: Seq<PathObservationView>,
    more_paths: Seq<Seq<u8>>,
    more_obs: Seq<PathObservationView>,
)
    requires
        paths.len() == obs.len(),
        paths_outcome(prefix, paths, obs).1 is Some,
    ensures
        paths_outcome(prefix, paths + more_paths, obs + more_obs) == paths_outcome(
            prefix,
            paths,
            obs,
        ),
    decreases paths.len(),
{
    if paths.len() > 0 {
        assert((paths + more_paths)[0] == paths[0]);
        assert((obs + more_obs)[0] == obs[0]);
        assert((paths + more_paths).drop_first() =~= paths.drop_first() + more_paths);
        assert((obs + more_obs).drop_first() =~= obs.drop_first() + more_obs);
        if path_outcome(prefix, paths[0], obs[0]).1 is None {
            law_first_error_stands(
                prefix,
                paths.drop_first(),
                obs.drop_first(),
                more_paths,
                more_obs,
            );
        }
    }
}

/// A made-up prefix is `docker/` followed by the timestamp: at least 21
/// characters, the last ten of them digits, and exactly `docker/` and 14
/// digits for any reading of the clock up to the year 9999.
pub proof fn law_default_prefix_shape(prefix: Seq<char>)
    requires
        is_default_prefix(prefix),
    ensures
        prefix.len() >= 21,
        prefix.take(7) == default_prefix_head(),
        forall|i: int| prefix.len() - 10 <= i < prefix.len() ==> is_digit(#[trigger] prefix[i]),
        (exists|t: UtcTime| t.valid() && t.year <= 9999 && prefix == default_prefix_head()
            + #[trigger] stamp_text(t)) ==> prefix.len() == 21 && forall|i: int|
            7 <= i < 21 ==> is_digit(#[trigger] prefix[i]),
{
    let t = choose|t: UtcTime| t.valid() && prefix == default_prefix_head() + #[trigger] stamp_text(t);
    law_stamp_shape(t);
    assert(prefix.take(7) =~= default_prefix_head());
    assert forall|i: int| prefix.len() - 10 <= i < prefix.len() implies is_digit(
        #[trigger] prefix[i],
    ) by {
        assert(prefix[i] == stamp_text(t)[i - 7]);
    }
    if exists|u: UtcTime| u.valid() && u.year <= 9999 && prefix == default_prefix_head()
        + #[trigger] stamp_text(u) {
        let u = choose|u: UtcTime| u.valid() && u.year <= 9999 && prefix == default_prefix_head()
            + #[trigger] stamp_text(u);
        law_stamp_shape(u);
        assert forall|i: int| 7 <= i < 21 implies is_digit(#[trigger] prefix[i]) by {
            assert(prefix[i] == stamp_text(u)[i - 7]);
        }
    }
}

/// A file given by its path is stored under the prefix, a `/` and the
/// path's final component (its file name), whatever directories the path
/// names before it; it is the one item the path contributes, and no error
/// comes of it.
pub proof fn law_file_keyed_by_file_name(prefix: Seq<char>, path: Seq<u8>, name: Seq<u8>, n: u64)
    requires
        crate::paths::file_name_of(path) == Some(name),
        valid_utf8(name),
    ensures
        path_outcome(prefix, path, PathObservationView::File { size: Ok(n) }) == (
            seq![ItemView { local_path: path, remote_key: prefix + seq!['/'] + decode_utf8(name), size: n }],
            Option::<crate::error::UploadErrorView>::None,
        ),
{
}

/// A bucket handle is set up with the configured access key as its access
/// key and the configured secret key as its secret key, for the configured
/// bucket, region and endpoint, addressed path-style, with the configured
/// request timeout.
pub proof fn law_bucket_settings_from_config(config: UploadConfig)
    ensures
        crate::upload::settings_for(&config).access_key == config.access_key@,
        crate::upload::settings_for(&config).secret_key == config.secret_key@,
        crate::upload::settings_for(&config).name == config.bucket@,
        crate::upload::settings_for(&config).region == config.region@,
        crate::upload::settings_for(&config).endpoint == config.endpoint@,
        crate::upload::settings_for(&config).path_style,
        crate::upload::settings_for(&config).timeout == config.timeout,
{
}

/// Whenever the MIME database has a guess, that guess is the content type,
/// whatever it is; without one the content type is
/// `application/octet-stream`.
pub proof fn law_content_type_is_guess(guess: Option<Seq<char>>)
    ensures
        guess matches Some(m) ==> crate::content_type::content_type_for(guess) == m,
        guess is None ==> crate::content_type::content_type_for(guess)
            == "application/octet-stream"@,
{
    reveal_strlit("application/octet-stream");
    assert(crate::content_type::octet_stream() =~= "application/octet-stream"@);
}

} // verus!
