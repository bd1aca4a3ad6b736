//! Adaptive congestion control for the video encoder.

use crate::counter::{
    clamp_u32, clamped, distance_u32, least, multiply_u32, multiply_u64, raised,
};
use crate::error::TransportError;
use vstd::prelude::*;

verus! {

/// Minimum target bitrate in bps (0.5 Mbps).
pub const MIN_TARGET_BITRATE_BPS: u32 = 500_000;

/// Maximum target bitrate in bps (100 Mbps).
pub const MAX_TARGET_BITRATE_BPS: u32 = 100_000_000;

/// Minimum target framerate in fps.
pub const MIN_TARGET_FRAMERATE_FPS: u32 = 15;

/// Maximum target framerate in fps.
pub const MAX_TARGET_FRAMERATE_FPS: u32 = 120;

/// Configuration for adaptive congestion control.
#[derive(Debug, Clone, Copy, PartialEq, Eq, Structural)]
pub struct AdaptiveCongestionConfig {
    pub min_bitrate_bps: u32,
    pub max_bitrate_bps: u32,
    pub initial_bitrate_bps: u32,
    pub min_fps: u32,
    pub max_fps: u32,
    pub initial_fps: u32,
    pub target_rtt_ns: u64,
    pub max_tolerable_jitter_ns: u64,
    pub loss_threshold_high_million: u32,
    pub loss_threshold_low_million: u32,
    pub additive_increase_bps: u32,
    pub multiplicative_decrease_scaled: u32,
    pub reconfigure_bitrate_delta_bps: u32,
}

impl Default for AdaptiveCongestionConfig {
    fn default() -> (config: Self)
        ensures
            config == (AdaptiveCongestionConfig {
                min_bitrate_bps: 500_000,
                max_bitrate_bps: 100_000_000,
                initial_bitrate_bps: 20_000_000,
                min_fps: 15,
                max_fps: 120,
                initial_fps: 60,
                target_rtt_ns: 30_000_000,
                max_tolerable_jitter_ns: 15_000_000,
                loss_threshold_high_million: 50_000,
                loss_threshold_low_million: 10_000,
                additive_increase_bps: 1_000_000,
                multiplicative_decrease_scaled: 750_000,
                reconfigure_bitrate_delta_bps: 2_000_000,
            }),
    {
        AdaptiveCongestionConfig {
            min_bitrate_bps: MIN_TARGET_BITRATE_BPS,
            max_bitrate_bps: MAX_TARGET_BITRATE_BPS,
            initial_bitrate_bps: 20_000_000,
            min_fps: MIN_TARGET_FRAMERATE_FPS,
            max_fps: MAX_TARGET_FRAMERATE_FPS,
            initial_fps: 60,
            target_rtt_ns: 30_000_000,
            max_tolerable_jitter_ns: 15_000_000,
            loss_threshold_high_million: 50_000,
            loss_threshold_low_million: 10_000,
            additive_increase_bps: 1_000_000,
            multiplicative_decrease_scaled: 750_000,
            reconfigure_bitrate_delta_bps: 2_000_000,
        }
    }
}

impl AdaptiveCongestionConfig {
    /// Rates are ordered and inside the hard limits, and both adaptation steps
    /// make progress.
    pub open spec fn is_valid(self) -> bool {
        &&& MIN_TARGET_BITRATE_BPS <= self.min_bitrate_bps <= self.initial_bitrate_bps
            <= self.max_bitrate_bps <= MAX_TARGET_BITRATE_BPS
        &&& MIN_TARGET_FRAMERATE_FPS <= self.min_fps <= self.initial_fps <= self.max_fps
            <= MAX_TARGET_FRAMERATE_FPS
        &&& 0 < self.target_rtt_ns
        &&& 0 < self.additive_increase_bps
        &&& 0 < self.multiplicative_decrease_scaled < 1_000_000
    }

    /// Accepts exactly the consistent configurations.
    pub fn validate(self) -> (result: Result<(), TransportError>)
        ensures
            result == (if self.is_valid() {
                Ok::<(), TransportError>(())
            } else {
                Err::<(), TransportError>(TransportError::CongestionConfigInvalid)
            }),
    {
        if self.min_bitrate_bps < MIN_TARGET_BITRATE_BPS || self.max_bitrate_bps
            > MAX_TARGET_BITRATE_BPS || self.min_bitrate_bps > self.max_bitrate_bps
            || self.initial_bitrate_bps < self.min_bitrate_bps || self.initial_bitrate_bps
            > self.max_bitrate_bps || self.min_fps < MIN_TARGET_FRAMERATE_FPS || self.max_fps
            > MAX_TARGET_FRAMERATE_FPS || self.min_fps > self.max_fps || self.initial_fps
            < self.min_fps || self.initial_fps > self.max_fps || self.target_rtt_ns == 0
            || self.additive_increase_bps == 0 || self.multiplicative_decrease_scaled == 0
            || self.multiplicative_decrease_scaled >= 1_000_000 {
            return Err(TransportError::CongestionConfigInvalid);
        }
        Ok(())
    }
}

/// Output recommendation from the congestion controller.
#[derive(Debug, Clone, Copy, PartialEq, Eq, Structural)]
pub struct CongestionDecision {
    pub target_bitrate_bps: u32,
    pub max_bitrate_bps: u32,
    pub target_fps: u32,
    pub requires_codec_reconfigure: bool,
    pub force_keyframe: bool,
    pub smoothed_rtt_ns: u64,
    pub smoothed_loss_million: u32,
    pub smoothed_jitter_ns: u64,
}

/// Reason for a codec reconfiguration signal.
#[derive(Debug, Clone, Copy, PartialEq, Eq, Structural)]
pub enum ReconfigureReason {
    LossSpike,
    EpochBump,
    BandwidthAdjustment,
    RecoveryRequested,
}

/// Flag bits that the rate-update record assigns.
#[derive(Debug, Clone, Copy, PartialEq, Eq, Structural)]
pub struct RateFlags {
    pub force_keyframe: u16,
    pub epoch_bump: u16,
}

/// Rate update sent to the encoder side.
#[derive(Debug, Clone, Copy, PartialEq, Eq, Structural)]
pub struct RateUpdateMessage {
    pub stream_id: u32,
    pub codec_epoch: u32,
    pub target_bitrate_bps: u32,
    pub max_bitrate_bps: u32,
    pub target_fps: u32,
    pub flags: u16,
}

/// Receiver feedback about the path.
#[derive(Debug, Clone, Copy, PartialEq, Eq, Structural)]
pub struct CongestionFeedbackMessage {
    pub rtt_ns: u32,
    pub loss_per_million: u32,
    pub jitter_ns: u32,
}

/// Reconfiguration signal to send to the video encoder/coordinator.
#[derive(Debug, Clone, Copy, PartialEq, Eq, Structural)]
pub struct CodecReconfigureSignal {
    pub stream_id: u32,
    pub codec_epoch: u32,
    pub target_bitrate_bps: u32,
    pub max_bitrate_bps: u32,
    pub target_fps: u32,
    pub force_keyframe: bool,
    pub reason: ReconfigureReason,
}

impl CodecReconfigureSignal {
    /// The flag bits of the record for this signal.
    pub open spec fn flags(self, flags: RateFlags) -> u16 {
        let keyframe = if self.force_keyframe {
            0u16 | flags.force_keyframe
        } else {
            0u16
        };
        if self.reason == ReconfigureReason::EpochBump {
            keyframe | flags.epoch_bump
        } else {
            keyframe
        }
    }

    /// The record that announces this signal.
    pub fn to_rate_update_message(&self, flags: RateFlags) -> (message: RateUpdateMessage)
        ensures
            message == (RateUpdateMessage {
                stream_id: self.stream_id,
                codec_epoch: self.codec_epoch,
                target_bitrate_bps: self.target_bitrate_bps,
                max_bitrate_bps: self.max_bitrate_bps,
                target_fps: self.target_fps,
                flags: self.flags(flags),
            }),
    {
        let mut bits: u16 = 0;
        if self.force_keyframe {
            bits = bits | flags.force_keyframe;
        }
        if self.reason == ReconfigureReason::EpochBump {
            bits = bits | flags.epoch_bump;
        }
        RateUpdateMessage {
            stream_id: self.stream_id,
            codec_epoch: self.codec_epoch,
            target_bitrate_bps: self.target_bitrate_bps,
            max_bitrate_bps: self.max_bitrate_bps,
            target_fps: self.target_fps,
            flags: bits,
        }
    }
}

/// Real-time statistics from the congestion controller.
#[derive(Debug, Clone, Copy, PartialEq, Eq, Structural)]
pub struct CongestionStats {
    pub current_bitrate_bps: u32,
    pub current_fps: u32,
    pub smoothed_rtt_ns: u64,
    pub smoothed_loss_million: u32,
    pub smoothed_jitter_ns: u64,
    pub loss_events: u64,
    pub recovery_events: u64,
    pub reconfigure_signals: u64,
}

/// The controller as mathematics sees it.
#[verifier::ext_equal]
pub struct ControllerView {
    pub config: AdaptiveCongestionConfig,
    pub bitrate_bps: u32,
    pub fps: u32,
    pub rtt_ns: u64,
    pub loss_million: u32,
    pub jitter_ns: u64,
    pub announced_bitrate_bps: u32,
    pub announced_fps: u32,
    pub updated_ns: u64,
    pub stats: CongestionStats,
}

/// Moving average with weight three on the past, stopping at `largest`.
pub open spec fn smoothed(past: int, sample: int, largest: int) -> int {
    least(least(past * 3, largest) + sample, largest) / 4
}

/// Distance between two rates.
pub open spec fn apart(left: u32, right: u32) -> int {
    if left > right {
        left - right
    } else {
        right - left
    }
}

impl ControllerView {
    /// A controller that has seen nothing yet.
    pub open spec fn fresh(config: AdaptiveCongestionConfig) -> ControllerView {
        ControllerView {
            config,
            bitrate_bps: config.initial_bitrate_bps,
            fps: config.initial_fps,
            rtt_ns: config.target_rtt_ns,
            loss_million: 0,
            jitter_ns: 0,
            announced_bitrate_bps: config.initial_bitrate_bps,
            announced_fps: config.initial_fps,
            updated_ns: 0,
            stats: CongestionStats {
                current_bitrate_bps: config.initial_bitrate_bps,
                current_fps: config.initial_fps,
                smoothed_rtt_ns: config.target_rtt_ns,
                smoothed_loss_million: 0,
                smoothed_jitter_ns: 0,
                loss_events: 0,
                recovery_events: 0,
                reconfigure_signals: 0,
            },
        }
    }

    /// The configuration is valid and both rates respect it.
    pub open spec fn is_valid(self) -> bool {
        &&& self.config.is_valid()
        &&& self.config.min_bitrate_bps <= self.bitrate_bps <= self.config.max_bitrate_bps
        &&& self.config.min_fps <= self.fps <= self.config.max_fps
    }

    /// Short-term ceiling above the target bitrate.
    pub open spec fn ceiling_bps(self) -> u32 {
        least(
            least(self.bitrate_bps * 12, u32::MAX as int) / 10,
            self.config.max_bitrate_bps as int,
        ) as u32
    }

    /// The bitrate after a multiplicative decrease.
    pub open spec fn reduced_bps(self) -> u32 {
        clamped(
            self.bitrate_bps * self.config.multiplicative_decrease_scaled / 1_000_000,
            self.config.min_bitrate_bps as int,
            self.config.max_bitrate_bps as int,
        ) as u32
    }

    /// The bitrate after an additive increase.
    pub open spec fn increased_bps(self) -> u32 {
        clamped(
            least(self.bitrate_bps + self.config.additive_increase_bps, u32::MAX as int),
            self.config.min_bitrate_bps as int,
            self.config.max_bitrate_bps as int,
        ) as u32
    }

    /// The averages with one more sample. The first loss and jitter samples
    /// are taken as they are.
    pub open spec fn averaged(
        self,
        rtt_ns: u64,
        loss_million: u32,
        jitter_ns: u64,
        now_ns: u64,
    ) -> ControllerView {
        ControllerView {
            rtt_ns: if self.rtt_ns == 0 {
                rtt_ns
            } else {
                smoothed(self.rtt_ns as int, rtt_ns as int, u64::MAX as int) as u64
            },
            loss_million: if self.loss_million == 0 && self.updated_ns == 0 {
                loss_million
            } else {
                smoothed(self.loss_million as int, loss_million as int, u32::MAX as int) as u32
            },
            jitter_ns: if self.jitter_ns == 0 && self.updated_ns == 0 {
                jitter_ns
            } else {
                smoothed(self.jitter_ns as int, jitter_ns as int, u64::MAX as int) as u64
            },
            updated_ns: now_ns,
            ..self
        }
    }

    /// Some average is far beyond its target.
    pub open spec fn is_congested(self) -> bool {
        ||| self.loss_million > self.config.loss_threshold_high_million
        ||| self.rtt_ns > least(self.config.target_rtt_ns * 2, u64::MAX as int)
        ||| self.jitter_ns > least(self.config.max_tolerable_jitter_ns * 2, u64::MAX as int)
    }

    /// Every average is within its target.
    pub open spec fn is_clear(self) -> bool {
        &&& self.loss_million <= self.config.loss_threshold_low_million
        &&& self.rtt_ns <= self.config.target_rtt_ns
        &&& self.jitter_ns <= self.config.max_tolerable_jitter_ns
    }

    /// Congestion with more than a tenth of the packets lost.
    pub open spec fn is_severe(self) -> bool {
        self.is_congested() && self.loss_million > 100_000
    }

    /// The rates adapted to the averages.
    pub open spec fn adapted(self) -> ControllerView {
        if self.is_congested() {
            ControllerView {
                bitrate_bps: self.reduced_bps(),
                fps: if self.is_severe() {
                    clamped(
                        self.fps - 15,
                        self.config.min_fps as int,
                        self.config.max_fps as int,
                    ) as u32
                } else {
                    self.fps
                },
                stats: CongestionStats {
                    loss_events: raised(self.stats.loss_events, 1),
                    ..self.stats
                },
                ..self
            }
        } else if self.is_clear() {
            ControllerView {
                bitrate_bps: self.increased_bps(),
                fps: if self.increased_bps() > 10_000_000 && self.fps < self.config.max_fps {
                    clamped(
                        self.fps + 5,
                        self.config.min_fps as int,
                        self.config.max_fps as int,
                    ) as u32
                } else {
                    self.fps
                },
                ..self
            }
        } else {
            self
        }
    }

    /// The rates have moved far enough from what the encoder was told.
    pub open spec fn needs_reconfigure(self) -> bool {
        ||| apart(self.bitrate_bps, self.announced_bitrate_bps)
            >= self.config.reconfigure_bitrate_delta_bps
        ||| apart(self.fps, self.announced_fps) >= 15
    }

    /// The current rates told to the encoder.
    pub open spec fn announced(self) -> ControllerView {
        ControllerView {
            announced_bitrate_bps: self.bitrate_bps,
            announced_fps: self.fps,
            stats: CongestionStats {
                reconfigure_signals: raised(self.stats.reconfigure_signals, 1),
                ..self.stats
            },
            ..self
        }
    }

    /// The statistics brought up to date.
    pub open spec fn reported(self) -> ControllerView {
        ControllerView {
            stats: CongestionStats {
                current_bitrate_bps: self.bitrate_bps,
                current_fps: self.fps,
                smoothed_rtt_ns: self.rtt_ns,
                smoothed_loss_million: self.loss_million,
                smoothed_jitter_ns: self.jitter_ns,
                ..self.stats
            },
            ..self
        }
    }

    /// The recommendation that the current state amounts to.
    pub open spec fn decision(self, reconfigure: bool, force_keyframe: bool) -> CongestionDecision {
        CongestionDecision {
            target_bitrate_bps: self.bitrate_bps,
            max_bitrate_bps: self.ceiling_bps(),
            target_fps: self.fps,
            requires_codec_reconfigure: reconfigure,
            force_keyframe,
            smoothed_rtt_ns: self.rtt_ns,
            smoothed_loss_million: self.loss_million,
            smoothed_jitter_ns: self.jitter_ns,
        }
    }

    /// State and recommendation after one path sample.
    pub open spec fn sampled(
        self,
        rtt_ns: u64,
        loss_million: u32,
        jitter_ns: u64,
        now_ns: u64,
    ) -> (ControllerView, CongestionDecision) {
        let averaged = self.averaged(rtt_ns, loss_million, jitter_ns, now_ns);
        let adapted = averaged.adapted();
        let severe = averaged.is_severe();
        let reconfigure = severe || adapted.needs_reconfigure();
        let told = if reconfigure {
            adapted.announced()
        } else {
            adapted
        };
        (told.reported(), told.reported().decision(reconfigure, severe))
    }

    /// State after an explicit loss event.
    pub open spec fn recovering(self, now_ns: u64) -> ControllerView {
        ControllerView {
            bitrate_bps: self.reduced_bps(),
            announced_bitrate_bps: self.reduced_bps(),
            updated_ns: now_ns,
            stats: CongestionStats {
                recovery_events: raised(self.stats.recovery_events, 1),
                reconfigure_signals: raised(self.stats.reconfigure_signals, 1),
                current_bitrate_bps: self.reduced_bps(),
                ..self.stats
            },
            ..self
        }
    }

    /// State after a codec epoch bump.
    pub open spec fn restarted(self, now_ns: u64) -> ControllerView {
        ControllerView { updated_ns: now_ns, ..self.announced() }
    }
}

/// Production adaptive congestion controller.
#[derive(Debug, Clone)]
pub struct AdaptiveCongestionController {
    config: AdaptiveCongestionConfig,
    current_bitrate_bps: u32,
    current_fps: u32,
    smoothed_rtt_ns: u64,
    smoothed_loss_million: u32,
    smoothed_jitter_ns: u64,
    last_reconfigure_bitrate_bps: u32,
    last_reconfigure_fps: u32,
    last_update_ns: u64,
    stats: CongestionStats,
}

impl View for AdaptiveCongestionController {
    type V = ControllerView;

    closed spec fn view(&self) -> ControllerView {
        ControllerView {
            config: self.config,
            bitrate_bps: self.current_bitrate_bps,
            fps: self.current_fps,
            rtt_ns: self.smoothed_rtt_ns,
            loss_million: self.smoothed_loss_million,
            jitter_ns: self.smoothed_jitter_ns,
            announced_bitrate_bps: self.last_reconfigure_bitrate_bps,
            announced_fps: self.last_reconfigure_fps,
            updated_ns: self.last_update_ns,
            stats: self.stats,
        }
    }
}

fn smooth_u64(past: u64, sample: u64) -> (result: u64)
    ensures
        result == smoothed(past as int, sample as int, u64::MAX as int),
{
    multiply_u64(past, 3).saturating_add(sample) / 4
}

fn smooth_u32(past: u32, sample: u32) -> (result: u32)
    ensures
        result == smoothed(past as int, sample as int, u32::MAX as int),
{
    multiply_u32(past, 3).saturating_add(sample) / 4
}

impl AdaptiveCongestionController {
    /// A controller at the configured initial rates.
    pub fn new(config: AdaptiveCongestionConfig) -> (result: Result<Self, TransportError>)
        ensures
            result is Ok <==> config.is_valid(),
            result is Err ==> result->Err_0 == TransportError::CongestionConfigInvalid,
            result is Ok ==> result->Ok_0@ == ControllerView::fresh(config)
                && result->Ok_0@.is_valid(),
    {
        match config.validate() {
            Err(error) => return Err(error),
            Ok(()) => {},
        }
        Ok(
            AdaptiveCongestionController {
                config,
                current_bitrate_bps: config.initial_bitrate_bps,
                current_fps: config.initial_fps,
                smoothed_rtt_ns: config.target_rtt_ns,
                smoothed_loss_million: 0,
                smoothed_jitter_ns: 0,
                last_reconfigure_bitrate_bps: config.initial_bitrate_bps,
                last_reconfigure_fps: config.initial_fps,
                last_update_ns: 0,
                stats: CongestionStats {
                    current_bitrate_bps: config.initial_bitrate_bps,
                    current_fps: config.initial_fps,
                    smoothed_rtt_ns: config.target_rtt_ns,
                    smoothed_loss_million: 0,
                    smoothed_jitter_ns: 0,
                    loss_events: 0,
                    recovery_events: 0,
                    reconfigure_signals: 0,
                },
            },
        )
    }

    /// Current target bitrate.
    pub fn target_bitrate_bps(&self) -> (bitrate: u32)
        ensures
            bitrate == self@.bitrate_bps,
    {
        self.current_bitrate_bps
    }

    /// Short-term ceiling: a fifth above the target, within the configuration.
    pub fn max_bitrate_bps(&self) -> (bitrate: u32)
        ensures
            bitrate == self@.ceiling_bps(),
    {
        let ceiling: u32 = multiply_u32(self.current_bitrate_bps, 12) / 10;
        if ceiling > self.config.max_bitrate_bps {
            self.config.max_bitrate_bps
        } else {
            ceiling
        }
    }

    /// Current target frame rate.
    pub fn target_fps(&self) -> (fps: u32)
        ensures
            fps == self@.fps,
    {
        self.current_fps
    }

    /// The statistics.
    pub fn stats(&self) -> (stats: CongestionStats)
        ensures
            stats == self@.stats,
    {
        self.stats
    }

    fn reduced(&self) -> (bitrate: u32)
        requires
            self@.is_valid(),
        ensures
            bitrate == self@.reduced_bps(),
    {
        proof {
            assert(self.current_bitrate_bps * self.config.multiplicative_decrease_scaled
                <= 100_000_000 * 1_000_000) by (nonlinear_arith)
                requires
                    self.current_bitrate_bps <= 100_000_000,
                    self.config.multiplicative_decrease_scaled <= 1_000_000,
            ;
        }
        let scaled: u64 = self.current_bitrate_bps as u64
            * self.config.multiplicative_decrease_scaled as u64 / 1_000_000;
        clamp_u32(scaled as u32, self.config.min_bitrate_bps, self.config.max_bitrate_bps)
    }

    fn decide(&self, reconfigure: bool, force_keyframe: bool) -> (decision: CongestionDecision)
        ensures
            decision == self@.decision(reconfigure, force_keyframe),
    {
        CongestionDecision {
            target_bitrate_bps: self.current_bitrate_bps,
            max_bitrate_bps: self.max_bitrate_bps(),
            target_fps: self.current_fps,
            requires_codec_reconfigure: reconfigure,
            force_keyframe,
            smoothed_rtt_ns: self.smoothed_rtt_ns,
            smoothed_loss_million: self.smoothed_loss_million,
            smoothed_jitter_ns: self.smoothed_jitter_ns,
        }
    }

    /// Adapts to one sample of the path.
    pub fn on_sample(
        &mut self,
        rtt_ns: u64,
        loss_million: u32,
        jitter_ns: u64,
        now_ns: u64,
    ) -> (decision: CongestionDecision)
        requires
            old(self)@.is_valid(),
        ensures
            final(self)@.is_valid(),
            (final(self)@, decision) == old(self)@.sampled(
                rtt_ns,
                loss_million,
                jitter_ns,
                now_ns,
            ),
    {
        self.smoothed_rtt_ns =
        if self.smoothed_rtt_ns == 0 {
            rtt_ns
        } else {
            smooth_u64(self.smoothed_rtt_ns, rtt_ns)
        };
        self.smoothed_loss_million =
        if self.smoothed_loss_million == 0 && self.last_update_ns == 0 {
            loss_million
        } else {
            smooth_u32(self.smoothed_loss_million, loss_million)
        };
        self.smoothed_jitter_ns =
        if self.smoothed_jitter_ns == 0 && self.last_update_ns == 0 {
            jitter_ns
        } else {
            smooth_u64(self.smoothed_jitter_ns, jitter_ns)
        };
        self.last_update_ns = now_ns;
        let ghost averaged = self@;
        proof {
            assert(averaged == old(self)@.averaged(rtt_ns, loss_million, jitter_ns, now_ns));
        }

        let mut force_keyframe: bool = false;
        let is_congested: bool = self.smoothed_loss_million
            > self.config.loss_threshold_high_million || self.smoothed_rtt_ns > multiply_u64(
            self.config.target_rtt_ns,
            2,
        ) || self.smoothed_jitter_ns > multiply_u64(self.config.max_tolerable_jitter_ns, 2);
        if is_congested {
            self.stats.loss_events = self.stats.loss_events.saturating_add(1);
            self.current_bitrate_bps = self.reduced();
            if self.smoothed_loss_million > 100_000 {
                self.current_fps =
                clamp_u32(
                    self.current_fps.saturating_sub(15),
                    self.config.min_fps,
                    self.config.max_fps,
                );
                force_keyframe = true;
            }
        } else if self.smoothed_loss_million <= self.config.loss_threshold_low_million
            && self.smoothed_rtt_ns <= self.config.target_rtt_ns && self.smoothed_jitter_ns
            <= self.config.max_tolerable_jitter_ns {
            self.current_bitrate_bps =
            clamp_u32(
                self.current_bitrate_bps.saturating_add(self.config.additive_increase_bps),
                self.config.min_bitrate_bps,
                self.config.max_bitrate_bps,
            );
            if self.current_bitrate_bps > 10_000_000 && self.current_fps < self.config.max_fps {
                self.current_fps =
                clamp_u32(
                    self.current_fps.saturating_add(5),
                    self.config.min_fps,
                    self.config.max_fps,
                );
            }
        }
        proof {
            assert(self@ == averaged.adapted());
        }
        let requires_reconfigure: bool = force_keyframe || distance_u32(
            self.current_bitrate_bps,
            self.last_reconfigure_bitrate_bps,
        ) >= self.config.reconfigure_bitrate_delta_bps || distance_u32(
            self.current_fps,
            self.last_reconfigure_fps,
        ) >= 15;
        if requires_reconfigure {
            self.last_reconfigure_bitrate_bps = self.current_bitrate_bps;
            self.last_reconfigure_fps = self.current_fps;
            self.stats.reconfigure_signals = self.stats.reconfigure_signals.saturating_add(1);
        }
        self.stats.current_bitrate_bps = self.current_bitrate_bps;
        self.stats.current_fps = self.current_fps;
        self.stats.smoothed_rtt_ns = self.smoothed_rtt_ns;
        self.stats.smoothed_loss_million = self.smoothed_loss_million;
        self.stats.smoothed_jitter_ns = self.smoothed_jitter_ns;
        self.decide(requires_reconfigure, force_keyframe)
    }

    /// Adapts to receiver feedback.
    pub fn on_feedback(&mut self, feedback: &CongestionFeedbackMessage, now_ns: u64) -> (decision:
        CongestionDecision)
        requires
            old(self)@.is_valid(),
        ensures
            final(self)@.is_valid(),
            (final(self)@, decision) == old(self)@.sampled(
                feedback.rtt_ns as u64,
                feedback.loss_per_million,
                feedback.jitter_ns as u64,
                now_ns,
            ),
    {
        self.on_sample(
            feedback.rtt_ns as u64,
            feedback.loss_per_million,
            feedback.jitter_ns as u64,
            now_ns,
        )
    }

    /// Reduces the bitrate at once and asks for a keyframe.
    pub fn on_loss_event(&mut self, now_ns: u64) -> (decision: CongestionDecision)
        requires
            old(self)@.is_valid(),
        ensures
            final(self)@.is_valid(),
            final(self)@ == old(self)@.recovering(now_ns),
            decision == final(self)@.decision(true, true),
    {
        self.stats.recovery_events = self.stats.recovery_events.saturating_add(1);
        self.current_bitrate_bps = self.reduced();
        self.last_reconfigure_bitrate_bps = self.current_bitrate_bps;
        self.last_update_ns = now_ns;
        self.stats.reconfigure_signals = self.stats.reconfigure_signals.saturating_add(1);
        self.stats.current_bitrate_bps = self.current_bitrate_bps;
        self.decide(true, true)
    }

    /// Announces the current rates to a restarted encoder.
    pub fn on_epoch_bump(&mut self, _new_epoch: u32, now_ns: u64) -> (decision: CongestionDecision)
        requires
            old(self)@.is_valid(),
        ensures
            final(self)@.is_valid(),
            final(self)@ == old(self)@.restarted(now_ns),
            decision == final(self)@.decision(true, true),
    {
        self.last_update_ns = now_ns;
        self.last_reconfigure_bitrate_bps = self.current_bitrate_bps;
        self.last_reconfigure_fps = self.current_fps;
        self.stats.reconfigure_signals = self.stats.reconfigure_signals.saturating_add(1);
        self.decide(true, true)
    }
}

/// Whatever the samples, both rates stay inside the configuration, and the
/// ceiling lies between the target and the configured maximum.
pub proof fn law_rates_stay_in_bounds(
    view: ControllerView,
    rtt_ns: u64,
    loss_million: u32,
    jitter_ns: u64,
    now_ns: u64,
)
    requires
        view.is_valid(),
    ensures
        view.sampled(rtt_ns, loss_million, jitter_ns, now_ns).0.is_valid(),
        view.recovering(now_ns).is_valid(),
        view.restarted(now_ns).is_valid(),
        view.bitrate_bps <= view.ceiling_bps() <= view.config.max_bitrate_bps,
{
}

/// Congestion never raises a rate; a clear path never lowers one.
pub proof fn law_rates_follow_the_path(view: ControllerView)
    requires
        view.is_valid(),
    ensures
        view.is_congested() ==> view.adapted().bitrate_bps <= view.bitrate_bps
            && view.adapted().fps <= view.fps,
        !view.is_congested() ==> view.adapted().bitrate_bps >= view.bitrate_bps
            && view.adapted().fps >= view.fps,
        view.reduced_bps() <= view.bitrate_bps,
        view.bitrate_bps > view.config.min_bitrate_bps ==> view.reduced_bps() < view.bitrate_bps,
{
    let bitrate = view.bitrate_bps as int;
    let factor = view.config.multiplicative_decrease_scaled as int;
    assert(bitrate * factor / 1_000_000 < bitrate) by (nonlinear_arith)
        requires
            0 < bitrate,
            0 < factor < 1_000_000,
    ;
}

} // verus!
