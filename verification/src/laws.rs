//! Properties the library keeps across its operations.

use vstd::prelude::*;
use vstd::arithmetic::power2::{is_pow2, lemma2_to64, lemma_pow2_unfold, pow2};
use crate::cache::{
    Cache, CacheEntryView, CacheMetadata, LookupView, ModTime, outdated_kept, rebuilt_frame, registered, spec_crate_version,
    spec_lookup,
};
use crate::cache_importer::keeps_cache;
use crate::data::GraphicDataView;
use crate::output::{Output, OutputFile, files_step, registered_files};
use crate::cache_exporter::exported_frame;
use crate::common::ConfigStatus;
use crate::config::RetryConfig;
use crate::graphics::{Frame, frame_shape};
use crate::image::{GraphicSourceData, decimal_value, is_decimal_digit, spec_parse_u32};
use crate::packer::{PackerError, spec_can_retry, spec_grow, spec_grown};
use crate::aseprite::spec_tag_indices;
use crate::cache::{CacheEntry, EntryCheck, SourceCheck, count_modified};
use crate::processing::spec_processing_needed;

verus! {

/// Rounding a power of two up to a power of two leaves it as it is: the
/// least power of two at least `n` is `n` itself.
pub proof fn law_ceil_power_2_keeps_powers(n: int, r: int)
    requires
        is_pow2(n),
        is_pow2(r),
        r >= n,
        forall|q: int| is_pow2(q) && q >= n ==> q >= r,
    ensures
        r == n,
{
}

/// Growing the atlas never shrinks a side and never takes a side that
/// started within the limit past it.
pub proof fn law_growth_is_monotone_and_bounded(side: u32, until: u32, k: nat)
    requires
        side <= until,
    ensures
        side <= spec_grown(side, until, k) <= until,
        spec_grown(side, until, k) <= spec_grown(side, until, k + 1),
    decreases k,
{
    if k > 0 {
        law_growth_is_monotone_and_bounded(side, until, (k - 1) as nat);
    }
}

proof fn lemma_grown_doubles(side: u32, until: u32, k: nat)
    requires
        1 <= side <= until,
    ensures
        spec_grown(side, until, k) == until || spec_grown(side, until, k) >= side * vstd::arithmetic::power2::pow2(k),
    decreases k,
{
    if k > 0 {
        lemma_grown_doubles(side, until, (k - 1) as nat);
        law_growth_is_monotone_and_bounded(side, until, (k - 1) as nat);
        vstd::arithmetic::power2::lemma_pow2_unfold(k);
        let prev = spec_grown(side, until, (k - 1) as nat);
        if prev != until {
            assert(prev >= side * vstd::arithmetic::power2::pow2((k - 1) as nat));
            assert(side * vstd::arithmetic::power2::pow2(k) == 2 * (side * vstd::arithmetic::power2::pow2(
                (k - 1) as nat,
            ))) by (nonlinear_arith)
                requires
                    vstd::arithmetic::power2::pow2(k) == 2 * vstd::arithmetic::power2::pow2((k - 1) as nat),
            ;
        }
    } else {
        vstd::arithmetic::power2::lemma2_to64();
    }
}

/// Retries end: from any non-empty atlas within the limit, thirty-two
/// retries bring both sides to the limit, where no failure is retried.
pub proof fn law_retries_end(width: u32, height: u32, until: u32, retry: RetryConfig, err: PackerError, retries: u32)
    requires
        1 <= width <= until,
        1 <= height <= until,
    ensures
        spec_grown(width, until, 32) == until,
        spec_grown(height, until, 32) == until,
        !spec_can_retry(err, retry, retries, spec_grown(width, until, 32), spec_grown(height, until, 32), until),
{
    vstd::arithmetic::power2::lemma2_to64();
    lemma_grown_doubles(width, until, 32);
    lemma_grown_doubles(height, until, 32);
    law_growth_is_monotone_and_bounded(width, until, 32);
    law_growth_is_monotone_and_bounded(height, until, 32);
    assert(width * vstd::arithmetic::power2::pow2(32) >= vstd::arithmetic::power2::pow2(32)) by (nonlinear_arith)
        requires
            width >= 1,
            vstd::arithmetic::power2::pow2(32) > 0,
    ;
    assert(height * vstd::arithmetic::power2::pow2(32) >= vstd::arithmetic::power2::pow2(32)) by (nonlinear_arith)
        requires
            height >= 1,
            vstd::arithmetic::power2::pow2(32) > 0,
    ;
}

/// Reading the cache after recording in it: once data is recorded for the
/// source at a location (`Cache::register`), a lookup there
/// (`Cache::retrieve`) with the recorded modification time finds exactly
/// that entry, a lookup with another time finds it outdated, and lookups at
/// every other location give what they gave before.
pub proof fn law_cache_read_after_write(
    before: Cache,
    after: Cache,
    location: Seq<char>,
    extension: Seq<char>,
    modtime: ModTime,
    data: GraphicDataView,
    other: Seq<char>,
    other_time: ModTime,
)
    requires
        registered(before, after, location, extension, modtime, data),
    ensures
        spec_lookup(after.spec_files(), location, modtime) == LookupView::Found(
            CacheEntryView { modtime, extension, data, location, invalid: false },
        ),
        other_time != modtime ==> spec_lookup(after.spec_files(), location, other_time) is Outdated,
        other != location ==> spec_lookup(after.spec_files(), other, other_time) == spec_lookup(
            before.spec_files(),
            other,
            other_time,
        ),
{
}

/// A cache written by this library version is kept by this library version:
/// the metadata that `CacheMetadata::new` gives a cache is accepted by
/// `CacheImporterProcessor::should_keep_cache` against the current metadata.
pub proof fn law_current_cache_is_kept(previous: CacheMetadata, current: CacheMetadata)
    requires
        previous.spec_version() == spec_crate_version(),
        current.spec_version() == spec_crate_version(),
    ensures
        keeps_cache(previous, current),
{
}

/// A frame recorded in the cache comes back the same way: blank stays
/// blank, and a frame with contents comes back with its duration and the
/// frame image found for it.
pub proof fn law_cached_frame_round_trip(frame: Frame, source: GraphicSourceData, rebuilt: Frame)
    requires
        rebuilt_frame(exported_frame(frame), source, rebuilt),
    ensures
        frame_shape(rebuilt) == frame_shape(frame),
        rebuilt matches Frame::Contents { graphic_source, .. } ==> graphic_source == source.source,
{
}

/// Whether settings changed over several steps does not depend on the order
/// of the steps: combining is commutative and associative, an unchanged step
/// changes nothing and a changed step decides.
pub proof fn law_config_status_combines(a: ConfigStatus, b: ConfigStatus, c: ConfigStatus)
    ensures
        ((a is Modified || b is Modified) == (b is Modified || a is Modified)),
        (((a is Modified || b is Modified) || c is Modified) == (a is Modified || (b is Modified || c is Modified))),
        (a is NotModified ==> ((a is Modified || b is Modified) == b is Modified)),
        (a is Modified ==> (a is Modified || b is Modified)),
{
}

/// The decimal text of a number, as `format!("{}", n)` writes it.
pub open spec fn decimal_text(n: nat) -> Seq<char>
    decreases n,
{
    if n < 10 {
        seq![(n + 48) as char]
    } else {
        decimal_text(n / 10).push(((n % 10) + 48) as char)
    }
}

proof fn lemma_decimal_text(n: nat)
    ensures
        decimal_text(n).len() > 0,
        forall|i: int| 0 <= i < decimal_text(n).len() ==> is_decimal_digit(#[trigger] decimal_text(n)[i]),
        decimal_value(decimal_text(n)) == n,
    decreases n,
{
    if n >= 10 {
        lemma_decimal_text(n / 10);
        let t = decimal_text(n);
        assert(t.drop_last() =~= decimal_text(n / 10));
        assert forall|i: int| 0 <= i < t.len() implies is_decimal_digit(#[trigger] t[i]) by {
            if i < t.len() - 1 {
                assert(t[i] == decimal_text(n / 10)[i]);
            }
        }
        assert(t.last() == ((n % 10) + 48) as char);
        assert((t.last() as nat) == (n % 10) + 48);
        assert(('0' as nat) == 48);
        assert(decimal_value(t) == decimal_value(t.drop_last()) * 10 + ((t.last() as nat) - ('0' as nat)));
        assert((n / 10) * 10 + n % 10 == n);
        assert(decimal_value(t.drop_last()) == n / 10);
        assert(decimal_value(t) == n);
    } else {
        let t = decimal_text(n);
        assert(t.drop_last() =~= Seq::<char>::empty());
        assert((t.last() as nat) == n + 48);
        assert(('0' as nat) == 48);
        assert(decimal_value(t.drop_last()) == 0);
        assert(decimal_value(t) == n);
    }
}

/// A frame number written as decimal text is read back as the same number,
/// which is how frame files named after their number are matched to their
/// frames.
pub proof fn law_frame_number_round_trip(n: u32)
    ensures
        spec_parse_u32(decimal_text(n as nat)) == Some(n),
{
    lemma_decimal_text(n as nat);
    let t = decimal_text(n as nat);
    assert(is_decimal_digit(t[0]));
    assert(t[0] != '+');
}

/// Re-running with nothing changed processes nothing: once the cache holds
/// metadata recording the source directory's current modification time and
/// is up to date, an unforced run that asks for no new atlas needs no
/// processing.
pub proof fn law_unchanged_sources_are_not_processed(metadata: CacheMetadata, cache: Cache, source_directory_modtime: ModTime)
    requires
        metadata.spec_generation().image.source_directory_modtime == source_directory_modtime,
        cache.spec_meta() == metadata,
        !cache.spec_is_outdated(),
    ensures
        !spec_processing_needed(false, Some(cache), false, source_directory_modtime),
{
}

/// An outdated cache stays outdated: through any run of the cache's
/// operations (each of which keeps an outdated cache outdated), every later
/// state of a cache that was outdated is outdated too.
pub proof fn law_outdated_cache_stays_outdated(states: Seq<Cache>)
    requires
        states.len() > 0,
        states[0].spec_is_outdated(),
        forall|i: int| 0 <= i < states.len() - 1 ==> outdated_kept(#[trigger] states[i], states[i + 1]),
    ensures
        forall|i: int| 0 <= i < states.len() ==> (#[trigger] states[i]).spec_is_outdated(),
    decreases states.len(),
{
    if states.len() > 1 {
        let prev = states.drop_last();
        assert forall|i: int| 0 <= i < prev.len() - 1 implies outdated_kept(#[trigger] prev[i], prev[i + 1]) by {
            assert(prev[i] == states[i] && prev[i + 1] == states[i + 1]);
            assert(outdated_kept(states[i], states[i + 1]));
        }
        law_outdated_cache_stays_outdated(prev);
        let n = states.len() - 1;
        assert(prev[n - 1] == states[n - 1]);
        assert(outdated_kept(states[n - 1], states[n]));
        assert forall|i: int| 0 <= i < states.len() implies (#[trigger] states[i]).spec_is_outdated() by {
            if i < n {
                assert(prev[i] == states[i]);
            }
        }
    }
}

/// The output's files are exactly the files whose registration succeeded,
/// in the order of the calls: over any run of calls on an output that
/// starts with no files, registrations appending on success and the other
/// calls keeping the files.
pub proof fn law_output_files_are_registered_ones<S>(states: Seq<Output<S>>, steps: Seq<Option<(OutputFile<S>, bool)>>)
    requires
        states.len() == steps.len() + 1,
        states[0].spec_files().len() == 0,
        forall|i: int| 0 <= i < steps.len() ==> files_step(#[trigger] states[i], steps[i], states[i + 1]),
    ensures
        states.last().spec_files() == registered_files(steps),
    decreases steps.len(),
{
    if steps.len() == 0 {
        assert(states[0].spec_files() =~= Seq::<OutputFile<S>>::empty());
    } else {
        let n = steps.len() - 1;
        let prev_states = states.drop_last();
        let prev_steps = steps.drop_last();
        assert forall|i: int| 0 <= i < prev_steps.len() implies files_step(
            #[trigger] prev_states[i],
            prev_steps[i],
            prev_states[i + 1],
        ) by {
            assert(prev_states[i] == states[i] && prev_states[i + 1] == states[i + 1]);
            assert(prev_steps[i] == steps[i]);
            assert(files_step(states[i], steps[i], states[i + 1]));
        }
        law_output_files_are_registered_ones(prev_states, prev_steps);
        assert(prev_states.last() == states[n]);
        assert(files_step(states[n], steps[n], states[n + 1]));
    }
}

/// A frame tag's track covers exactly the tag's frames: a frame number is
/// in the track exactly when it lies between the tag's first and last frame,
/// both included, and the numbers come in strictly increasing order. A
/// one-frame tag thus gives a track of that one frame.
pub proof fn law_track_covers_tag_frames(from: i32, to: i32, x: u32)
    ensures
        spec_tag_indices(from, to).contains(x) <==> (from <= x && x <= to),
        forall|a: int, b: int|
            0 <= a < b < spec_tag_indices(from, to).len() ==> #[trigger] spec_tag_indices(from, to)[a]
                < #[trigger] spec_tag_indices(from, to)[b],
{
    let lo: int = if from < 0 { 0 } else { from as int };
    let s = spec_tag_indices(from, to);
    if from <= x && x <= to {
        let k = x - lo;
        assert(s[k] == x);
    }
    if s.contains(x) {
        let k = choose|k: int| 0 <= k < s.len() && s[k] == x;
        assert(s[k] == (lo + k) as u32);
    }
}

/// A retry doubles each atlas side, but never past the limit: starting from
/// a side within the limit, after `k` retries the side is the smaller of the
/// side times two to the `k`-th power and the limit.
pub proof fn law_retry_doubles_sides(side: u32, until: u32, k: nat)
    requires
        side <= until,
    ensures
        spec_grown(side, until, k) == if side * pow2(k) <= until {
            side * pow2(k)
        } else {
            until as int
        },
    decreases k,
{
    if k == 0 {
        lemma2_to64();
    } else {
        lemma_pow2_unfold(k);
        law_retry_doubles_sides(side, until, (k - 1) as nat);
        assert(side * pow2(k) == 2 * (side * pow2((k - 1) as nat))) by (nonlinear_arith)
            requires
                pow2(k) == 2 * pow2((k - 1) as nat),
        ;
        assert(side * pow2((k - 1) as nat) >= 0) by (nonlinear_arith)
            requires
                side >= 0,
                pow2((k - 1) as nat) >= 0,
        ;
    }
}

/// A cached entry whose source is still there but carries another
/// modification time than the recorded one, earlier or later, counts as a
/// modified source, so verifying the cache finds at least one modified
/// source (and the cache falls behind).
pub proof fn law_changed_source_time_is_modified(checks: Seq<EntryCheck>, entries: Seq<CacheEntry>, i: int)
    requires
        0 <= i < checks.len(),
        checks[i].source matches SourceCheck::Present { modtime, .. } && (modtime.spec_is_before(
            entries[i].modtime,
        ) || entries[i].modtime.spec_is_before(modtime)),
    ensures
        count_modified(checks, entries) >= 1,
    decreases checks.len(),
{
    if i < checks.len() - 1 {
        law_changed_source_time_is_modified(checks.drop_last(), entries, i);
    }
}

} // verus!
