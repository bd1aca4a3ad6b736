//! What the rate controller does with a sample, in plain numbers.

use crate::congestion::{
    AdaptiveCongestionConfig, CodecReconfigureSignal, ControllerView, RateFlags, ReconfigureReason,
    MAX_TARGET_BITRATE_BPS, MAX_TARGET_FRAMERATE_FPS, MIN_TARGET_BITRATE_BPS,
    MIN_TARGET_FRAMERATE_FPS,
};
use vstd::prelude::*;

verus! {

/// Rates lie between half a megabit and a hundred megabits, and between 15 and
/// 120 frames a second.
pub proof fn law_rate_limits()
    ensures
        MIN_TARGET_BITRATE_BPS == 500_000,
        MAX_TARGET_BITRATE_BPS == 100_000_000,
        MIN_TARGET_FRAMERATE_FPS == 15,
        MAX_TARGET_FRAMERATE_FPS == 120,
{
}

/// A configuration is taken exactly if its rates are ordered inside the hard
/// limits of half a megabit to a hundred megabits and of 15 to 120 frames, and
/// if the target and both steps are positive.
pub proof fn law_configurations_in_order_are_taken(config: AdaptiveCongestionConfig)
    ensures
        config.is_valid() <==> (500_000 <= config.min_bitrate_bps && config.min_bitrate_bps
            <= config.initial_bitrate_bps && config.initial_bitrate_bps <= config.max_bitrate_bps
            && config.max_bitrate_bps <= 100_000_000 && 15 <= config.min_fps && config.min_fps
            <= config.initial_fps && config.initial_fps <= config.max_fps && config.max_fps <= 120
            && config.target_rtt_ns >= 1 && config.additive_increase_bps >= 1
            && config.multiplicative_decrease_scaled >= 1
            && config.multiplicative_decrease_scaled < 1_000_000),
{
}

/// A controller starts at the initial rates, with the target as its round trip
/// time and without loss or jitter, and has told the encoder these rates.
pub proof fn law_controller_starts_at_the_initial_rates(config: AdaptiveCongestionConfig)
    ensures
        ({
            let start = ControllerView::fresh(config);
            &&& start.config == config
            &&& start.bitrate_bps == config.initial_bitrate_bps
            &&& start.announced_bitrate_bps == config.initial_bitrate_bps
            &&& start.fps == config.initial_fps
            &&& start.announced_fps == config.initial_fps
            &&& start.rtt_ns == config.target_rtt_ns
            &&& start.loss_million == 0
            &&& start.jitter_ns == 0
            &&& start.updated_ns == 0
            &&& start.stats.current_bitrate_bps == config.initial_bitrate_bps
            &&& start.stats.current_fps == config.initial_fps
            &&& start.stats.smoothed_rtt_ns == config.target_rtt_ns
            &&& start.stats.smoothed_loss_million == 0
            &&& start.stats.smoothed_jitter_ns == 0
            &&& start.stats.loss_events == 0
            &&& start.stats.recovery_events == 0
            &&& start.stats.reconfigure_signals == 0
        }),
{
}

/// `after` is the average of three parts `past` and one part `sample`, rounded
/// down.
pub open spec fn is_average(after: int, past: int, sample: int) -> bool {
    4 * after <= 3 * past + sample < 4 * after + 4
}

/// Each average moves a quarter of the way to the sample, and a first sample is
/// taken as it is. The averages are what the decision and the statistics show.
pub proof fn law_averages_follow_the_samples(
    view: ControllerView,
    rtt_ns: u64,
    loss_million: u32,
    jitter_ns: u64,
    now_ns: u64,
)
    ensures
        ({
            let (after, decision) = view.sampled(rtt_ns, loss_million, jitter_ns, now_ns);
            &&& view.rtt_ns == 0 ==> after.rtt_ns == rtt_ns
            &&& view.rtt_ns > 0 && 3 * view.rtt_ns + rtt_ns <= u64::MAX ==> is_average(
                after.rtt_ns as int,
                view.rtt_ns as int,
                rtt_ns as int,
            )
            &&& view.loss_million == 0 && view.updated_ns == 0 ==> after.loss_million
                == loss_million
            &&& (view.loss_million > 0 || view.updated_ns > 0) && 3 * view.loss_million
                + loss_million <= u32::MAX ==> is_average(
                after.loss_million as int,
                view.loss_million as int,
                loss_million as int,
            )
            &&& view.jitter_ns == 0 && view.updated_ns == 0 ==> after.jitter_ns == jitter_ns
            &&& (view.jitter_ns > 0 || view.updated_ns > 0) && 3 * view.jitter_ns + jitter_ns
                <= u64::MAX ==> is_average(
                after.jitter_ns as int,
                view.jitter_ns as int,
                jitter_ns as int,
            )
            &&& view.rtt_ns > 0 && 3 * view.rtt_ns + rtt_ns > u64::MAX ==> after.rtt_ns
                == u64::MAX / 4
            &&& (view.loss_million > 0 || view.updated_ns > 0) && 3 * view.loss_million
                + loss_million > u32::MAX ==> after.loss_million == u32::MAX / 4
            &&& (view.jitter_ns > 0 || view.updated_ns > 0) && 3 * view.jitter_ns + jitter_ns
                > u64::MAX ==> after.jitter_ns == u64::MAX / 4
            &&& after.updated_ns == now_ns
            &&& after.config == view.config
            &&& decision.smoothed_rtt_ns == after.rtt_ns == after.stats.smoothed_rtt_ns
            &&& decision.smoothed_loss_million == after.loss_million
                == after.stats.smoothed_loss_million
            &&& decision.smoothed_jitter_ns == after.jitter_ns == after.stats.smoothed_jitter_ns
        }),
{
}

/// `after` is `before` times the decrease factor, but at least the minimum.
pub open spec fn is_decrease(
    after: int,
    before: int,
    config: AdaptiveCongestionConfig,
) -> bool {
    if before * config.multiplicative_decrease_scaled < config.min_bitrate_bps * 1_000_000 {
        after == config.min_bitrate_bps
    } else {
        after * 1_000_000 <= before * config.multiplicative_decrease_scaled < (after + 1)
            * 1_000_000
    }
}

/// A path is too slow if its round trip takes more than twice the target, its
/// jitter is more than twice the bound, or more is lost than the upper
/// threshold allows. Then the bitrate falls by the configured factor, strictly
/// unless it stands at the minimum, and the event is counted. A tenth of the
/// packets lost also takes 15 frames per second away and asks for a keyframe.
pub proof fn law_slow_path_lowers_the_rates(
    view: ControllerView,
    rtt_ns: u64,
    loss_million: u32,
    jitter_ns: u64,
    now_ns: u64,
)
    requires
        view.is_valid(),
        ({
            let after = view.sampled(rtt_ns, loss_million, jitter_ns, now_ns).0;
            ||| after.rtt_ns > 2 * view.config.target_rtt_ns
            ||| after.jitter_ns > 2 * view.config.max_tolerable_jitter_ns
            ||| after.loss_million > view.config.loss_threshold_high_million
        }),
    ensures
        ({
            let (after, decision) = view.sampled(rtt_ns, loss_million, jitter_ns, now_ns);
            &&& is_decrease(after.bitrate_bps as int, view.bitrate_bps as int, view.config)
            &&& after.bitrate_bps <= view.bitrate_bps
            &&& view.bitrate_bps > view.config.min_bitrate_bps ==> after.bitrate_bps
                < view.bitrate_bps
            &&& view.stats.loss_events < u64::MAX ==> after.stats.loss_events
                == view.stats.loss_events + 1
            &&& after.loss_million <= 100_000 ==> after.fps == view.fps && !decision.force_keyframe
            &&& after.loss_million > 100_000 ==> decision.force_keyframe
                && decision.requires_codec_reconfigure
            &&& after.loss_million > 100_000 && view.fps >= view.config.min_fps + 15 ==> after.fps
                == view.fps - 15
            &&& after.loss_million > 100_000 && view.fps < view.config.min_fps + 15 ==> after.fps
                == view.config.min_fps
        }),
{
    lemma_decrease(view);
    let averaged = view.averaged(rtt_ns, loss_million, jitter_ns, now_ns);
    lemma_decrease(averaged);
}

proof fn lemma_decrease(view: ControllerView)
    requires
        view.is_valid(),
    ensures
        is_decrease(view.reduced_bps() as int, view.bitrate_bps as int, view.config),
        view.reduced_bps() <= view.bitrate_bps,
        view.bitrate_bps > view.config.min_bitrate_bps ==> view.reduced_bps() < view.bitrate_bps,
{
    let bitrate = view.bitrate_bps as int;
    let factor = view.config.multiplicative_decrease_scaled as int;
    let scaled = bitrate * factor;
    assert(scaled / 1_000_000 < bitrate) by (nonlinear_arith)
        requires
            scaled == bitrate * factor,
            0 < bitrate,
            0 < factor < 1_000_000,
    ;
}

/// A path within its targets, with no more lost than the lower threshold
/// allows, raises the bitrate by the configured step up to the maximum. Above
/// ten megabits it also adds five frames per second up to the maximum.
pub proof fn law_clear_path_raises_the_rates(
    view: ControllerView,
    rtt_ns: u64,
    loss_million: u32,
    jitter_ns: u64,
    now_ns: u64,
)
    requires
        view.is_valid(),
        ({
            let after = view.sampled(rtt_ns, loss_million, jitter_ns, now_ns).0;
            &&& after.rtt_ns <= view.config.target_rtt_ns
            &&& after.jitter_ns <= view.config.max_tolerable_jitter_ns
            &&& after.loss_million <= view.config.loss_threshold_low_million
            &&& after.loss_million <= view.config.loss_threshold_high_million
        }),
    ensures
        ({
            let (after, decision) = view.sampled(rtt_ns, loss_million, jitter_ns, now_ns);
            let raised = view.bitrate_bps + view.config.additive_increase_bps;
            &&& raised <= view.config.max_bitrate_bps ==> after.bitrate_bps == raised
            &&& raised > view.config.max_bitrate_bps ==> after.bitrate_bps
                == view.config.max_bitrate_bps
            &&& after.bitrate_bps <= 10_000_000 ==> after.fps == view.fps
            &&& after.bitrate_bps > 10_000_000 && view.fps + 5 <= view.config.max_fps ==> after.fps
                == view.fps + 5
            &&& after.bitrate_bps > 10_000_000 && view.fps + 5 > view.config.max_fps ==> after.fps
                == view.config.max_fps
            &&& !decision.force_keyframe
            &&& after.stats.loss_events == view.stats.loss_events
        }),
{
}

/// A path that is neither too slow nor within its targets leaves both rates as
/// they are.
pub proof fn law_middling_path_keeps_the_rates(
    view: ControllerView,
    rtt_ns: u64,
    loss_million: u32,
    jitter_ns: u64,
    now_ns: u64,
)
    requires
        ({
            let after = view.sampled(rtt_ns, loss_million, jitter_ns, now_ns).0;
            &&& after.rtt_ns <= 2 * view.config.target_rtt_ns
            &&& after.jitter_ns <= 2 * view.config.max_tolerable_jitter_ns
            &&& after.loss_million <= view.config.loss_threshold_high_million
            &&& after.rtt_ns > view.config.target_rtt_ns || after.jitter_ns
                > view.config.max_tolerable_jitter_ns || after.loss_million
                > view.config.loss_threshold_low_million
        }),
    ensures
        ({
            let (after, decision) = view.sampled(rtt_ns, loss_million, jitter_ns, now_ns);
            &&& after.bitrate_bps == view.bitrate_bps
            &&& after.fps == view.fps
            &&& !decision.force_keyframe
            &&& after.stats.loss_events == view.stats.loss_events
        }),
{
}

/// The encoder is told new rates exactly with a keyframe, or when the bitrate
/// is as far as the configured distance from what it was last told, or the
/// frame rate 15 frames. From then on these are the rates that it was told.
/// Every decision shows the rates of the controller.
pub proof fn law_encoder_is_told_when_rates_moved(
    view: ControllerView,
    rtt_ns: u64,
    loss_million: u32,
    jitter_ns: u64,
    now_ns: u64,
)
    ensures
        ({
            let (after, decision) = view.sampled(rtt_ns, loss_million, jitter_ns, now_ns);
            let moved = after.bitrate_bps - view.announced_bitrate_bps;
            let turned = after.fps - view.announced_fps;
            let delta = view.config.reconfigure_bitrate_delta_bps;
            &&& decision.requires_codec_reconfigure <==> decision.force_keyframe || moved >= delta
                || -moved >= delta || turned >= 15 || -turned >= 15
            &&& decision.requires_codec_reconfigure ==> after.announced_bitrate_bps
                == after.bitrate_bps && after.announced_fps == after.fps
            &&& !decision.requires_codec_reconfigure ==> after.announced_bitrate_bps
                == view.announced_bitrate_bps && after.announced_fps == view.announced_fps
            &&& view.stats.reconfigure_signals < u64::MAX ==> after.stats.reconfigure_signals
                == view.stats.reconfigure_signals + (if decision.requires_codec_reconfigure {
                1int
            } else {
                0
            })
            &&& after.stats.recovery_events == view.stats.recovery_events
            &&& decision.target_bitrate_bps == after.bitrate_bps
                == after.stats.current_bitrate_bps
            &&& decision.target_fps == after.fps == after.stats.current_fps
            &&& decision.max_bitrate_bps == after.ceiling_bps()
        }),
{
}

/// The ceiling is a fifth above the target, rounded down, or the configured
/// maximum where that is less.
pub proof fn law_ceiling_is_a_fifth_above(view: ControllerView)
    requires
        view.is_valid(),
    ensures
        ({
            let ceiling = view.ceiling_bps() as int;
            let fifth = 12 * view.bitrate_bps;
            &&& ceiling <= view.config.max_bitrate_bps
            &&& 10 * ceiling <= fifth
            &&& ceiling < view.config.max_bitrate_bps ==> fifth < 10 * (ceiling + 1)
        }),
{
}

/// A lost frame lowers the bitrate by the configured factor at once and tells
/// the encoder; a restarted encoder is told the rates as they are. Neither
/// touches the averages, and both ask for a keyframe.
pub proof fn law_events_are_announced_at_once(view: ControllerView, now_ns: u64)
    requires
        view.is_valid(),
    ensures
        ({
            let lost = view.recovering(now_ns);
            &&& is_decrease(lost.bitrate_bps as int, view.bitrate_bps as int, view.config)
            &&& view.bitrate_bps > view.config.min_bitrate_bps ==> lost.bitrate_bps
                < view.bitrate_bps
            &&& lost.announced_bitrate_bps == lost.bitrate_bps
            &&& lost.stats.current_bitrate_bps == lost.bitrate_bps
            &&& lost.updated_ns == now_ns
            &&& lost.config == view.config
            &&& lost.fps == view.fps && lost.announced_fps == view.announced_fps
            &&& lost.rtt_ns == view.rtt_ns && lost.loss_million == view.loss_million
                && lost.jitter_ns == view.jitter_ns
            &&& view.stats.recovery_events < u64::MAX ==> lost.stats.recovery_events
                == view.stats.recovery_events + 1
            &&& view.stats.reconfigure_signals < u64::MAX ==> lost.stats.reconfigure_signals
                == view.stats.reconfigure_signals + 1
            &&& lost.stats.loss_events == view.stats.loss_events
        }),
        ({
            let bumped = view.restarted(now_ns);
            &&& bumped.bitrate_bps == view.bitrate_bps == bumped.announced_bitrate_bps
            &&& bumped.fps == view.fps == bumped.announced_fps
            &&& bumped.updated_ns == now_ns
            &&& bumped.config == view.config
            &&& bumped.rtt_ns == view.rtt_ns && bumped.loss_million == view.loss_million
                && bumped.jitter_ns == view.jitter_ns
            &&& view.stats.reconfigure_signals < u64::MAX ==> bumped.stats.reconfigure_signals
                == view.stats.reconfigure_signals + 1
            &&& bumped.stats.loss_events == view.stats.loss_events
            &&& bumped.stats.recovery_events == view.stats.recovery_events
        }),
        forall|reconfigure: bool, keyframe: bool|
            {
                let decision = #[trigger] view.decision(reconfigure, keyframe);
                &&& decision.requires_codec_reconfigure == reconfigure
                &&& decision.force_keyframe == keyframe
                &&& decision.target_bitrate_bps == view.bitrate_bps
                &&& decision.target_fps == view.fps
                &&& decision.max_bitrate_bps == view.ceiling_bps()
                &&& decision.smoothed_rtt_ns == view.rtt_ns
                &&& decision.smoothed_loss_million == view.loss_million
                &&& decision.smoothed_jitter_ns == view.jitter_ns
            },
{
    lemma_decrease(view);
}

/// The record of a signal carries the keyframe bits exactly with a keyframe,
/// the epoch bits exactly for an epoch bump, and no others.
pub proof fn law_flags_say_why(signal: CodecReconfigureSignal, flags: RateFlags)
    ensures
        ({
            let bits = signal.flags(flags);
            let bumped = signal.reason == ReconfigureReason::EpochBump;
            &&& signal.force_keyframe && bumped ==> bits == flags.force_keyframe
                | flags.epoch_bump
            &&& signal.force_keyframe && !bumped ==> bits == flags.force_keyframe
            &&& !signal.force_keyframe && bumped ==> bits == flags.epoch_bump
            &&& !signal.force_keyframe && !bumped ==> bits == 0
        }),
{
    let (a, b) = (flags.force_keyframe, flags.epoch_bump);
    assert((0u16 | a) | b == a | b && 0u16 | a == a && 0u16 | b == b) by (bit_vector);
}

} // verus!
