use std::sync::Arc;

use orion::domain::controls::{ChannelMode, NormalizedBalance};
use orion::domain::ids::RouteId;
use orion::dsp::buffer::MAX_CHANNELS;
use orion::dsp::eq::{saturate_block, soft_clip, Biquad, ChannelEq, EqCoefficients, SOFT_CLIP_KNEE};
use orion::dsp::error::DspError;
use orion::dsp::processors::{balance_in_range, linear_balance_gains, ParameterSmoother};
use orion::realtime::bus::BusEngine;
use orion::realtime::controls::EndpointControls;
use orion::realtime::engine::{
    link_publishers, BusHandle, BusPublisher, RingOutcome, RouteLink, SourceHandle,
    SourcePublisher, INBOX_CAPACITY,
};
use orion::realtime::meter::{clips, ChannelReading, RouteMeter, WindowLevels};
use orion::realtime::plans::{BusPlan, PlanSlot, RouteFeed, SourcePlan};
use orion::realtime::rings::{frames_ready, read_frame, write_frame};
use orion::realtime::roster::MAX_ROUTES_PER_ENDPOINT;
use orion::realtime::source::{FeedSteps, SourceEngine};
use orion::realtime::stage::{
    apply_output_mode, apply_sync_offset, capture_mode_frame, channel_gain, control_ramp_frames,
    corrector_target_frames, delay_line_capacity, mode_map, next_chunk, offset_samples,
    ring_capacity_frames, sanitize, FrameTap, MAX_BLOCK_FRAMES, MAX_TARGET_QUANTA, TARGET_QUANTA,
};
use orion::scalar::Scalar;

const CHANNELS: usize = 2;
const RATE: u32 = 48_000;
const QUANTUM: u32 = 128;

fn scalar(value: f32) -> Scalar {
    Scalar::from_bits(value.to_bits())
}

fn number(value: Scalar) -> f32 {
    f32::from_bits(value.bits)
}

fn step_to(smoother: &ParameterSmoother, target: f32, frames: usize) -> Scalar {
    scalar((target - number(smoother.current)) / frames as f32)
}

fn stepped(smoother: &ParameterSmoother) -> Scalar {
    scalar(number(smoother.current) + number(smoother.step))
}

fn bend(sample: f32) -> f32 {
    let knee = f32::from_bits(SOFT_CLIP_KNEE);
    let headroom = 1.0 - knee;
    let magnitude = sample.abs();
    let over = magnitude - knee;
    (knee + headroom * (over / headroom).tanh()).copysign(sample)
}

fn saturate(sample: f32) -> f32 {
    number(soft_clip(scalar(sample), scalar(bend(sample))))
}

fn filter(biquad: &mut Biquad, sample: f32) -> f32 {
    let band = biquad.coefficients;
    let out = sample * number(band.b0) + number(biquad.z1);
    biquad.z1 = scalar(sample * number(band.b1) + number(biquad.z2) - number(band.a1) * out);
    biquad.z2 = scalar(sample * number(band.b2) - number(band.a2) * out);
    out
}

fn equalize(eq: &mut ChannelEq, sample: f32) -> f32 {
    let low = filter(&mut eq.low, sample);
    let mid = filter(&mut eq.mid, low);
    filter(&mut eq.high, mid)
}

fn tapped(tap: FrameTap, frame: &[f32]) -> f32 {
    match tap {
        FrameTap::Silence => 0.0,
        FrameTap::Channel(at) => frame[at],
        FrameTap::Mean => (frame[0] + frame[1]) * 0.5,
    }
}

fn mapped(mode: ChannelMode, frame: &[f32], channel: usize, channels: usize) -> f32 {
    tapped(capture_mode_frame(mode, frame.len(), channel, channels), frame)
}

fn mode_pair(mode: ChannelMode, left: f32, right: f32) -> (f32, f32) {
    let mean = (left + right) * 0.5;
    let (first, second) = mode_map(mode, scalar(left), scalar(right), scalar(mean));
    (number(first), number(second))
}

fn reshape(mode: ChannelMode, block: &mut Vec<f32>, channels: usize) {
    let means: Vec<Scalar> = block
        .chunks_exact(2)
        .map(|frame| scalar((frame[0] + frame[1]) * 0.5))
        .collect();
    let mut samples: Vec<Scalar> = block.iter().map(|sample| scalar(*sample)).collect();
    apply_output_mode(mode, &mut samples, channels, &means);
    *block = samples.into_iter().map(number).collect();
}

fn blend(
    previous: ChannelMode,
    next: ChannelMode,
    mix: &mut ParameterSmoother,
    block: &mut [f32],
) {
    for frame in block.chunks_exact_mut(2) {
        let value = stepped(mix);
        let t = number(mix.next_value(value));
        let (old_left, old_right) = mode_pair(previous, frame[0], frame[1]);
        let (new_left, new_right) = mode_pair(next, frame[0], frame[1]);
        frame[0] = old_left + (new_left - old_left) * t;
        frame[1] = old_right + (new_right - old_right) * t;
    }
}

fn merge(meter: &mut RouteMeter, channel: usize, squares: f64, frames: u64, clipped: bool) {
    let sum = f64::from_bits(meter.windows[channel].sum_squares) + squares;
    meter.merge_block_stats(channel, sum.to_bits(), frames, clipped);
}

fn read(meter: &mut RouteMeter) -> Vec<ChannelReading> {
    let levels: Vec<WindowLevels> = meter
        .windows
        .iter()
        .map(|window| WindowLevels {
            rms: scalar(
                (f64::from_bits(window.sum_squares) / window.sample_count as f64).sqrt() as f32,
            ),
            half_peak: scalar(number(window.last_peak) * 0.5),
            half_rms: scalar(number(window.last_rms) * 0.5),
        })
        .collect();
    meter.readings(&levels)
}

struct Settings {
    controls: EndpointControls,
    mode: ChannelMode,
    delay_frames: u32,
    eq: EqCoefficients,
}

impl Settings {
    fn new() -> Self {
        Settings {
            controls: EndpointControls::default(),
            mode: ChannelMode::Auto,
            delay_frames: 0,
            eq: EqCoefficients::default(),
        }
    }

    fn gain(&self) -> f32 {
        10.0_f32.powf(number(self.controls.gain().value()) / 20.0)
    }

    fn audible(&self) -> f32 {
        if self.controls.is_muted() {
            0.0
        } else {
            1.0
        }
    }

    fn balance_gains(&self) -> (Scalar, Scalar) {
        let balance = balance_in_range(self.controls.balance());
        linear_balance_gains(balance, scalar(1.0 - number(balance).abs()))
    }
}

struct Source {
    engine: SourceEngine,
    settings: Settings,
    meter: RouteMeter,
}

impl Source {
    fn process(&mut self, input: &[f32]) {
        let engine = &mut self.engine;
        let generation = engine.begin_block();
        let ramp = engine.strip.ramp_frames;
        let (left, right) = self.settings.balance_gains();
        let steps: Vec<(Scalar, Scalar)> = engine
            .roster
            .active
            .iter()
            .map(|feed| {
                (
                    step_to(&feed.half.balance_left, number(left), ramp),
                    step_to(&feed.half.balance_right, number(right), ramp),
                )
            })
            .collect();
        let gain = self.settings.gain();
        let gain_step = step_to(&engine.strip.gain, gain, ramp);
        let audible_step = step_to(&engine.strip.audible, self.settings.audible(), ramp);
        engine.refresh_targets(
            scalar(gain),
            gain_step,
            self.settings.controls.is_muted(),
            audible_step,
            left,
            right,
            &steps,
        );
        engine.switch_mode(self.settings.mode, scalar(1.0 / ramp as f32));
        let offset = engine.strip.delay_samples(self.settings.delay_frames);
        engine.strip.refresh_eq(&self.settings.eq);
        let channels = engine.strip.channels;
        let shown = number(self.settings.controls.gain_linear(scalar(gain)));
        let total = input.len() / channels;
        let mut first = 0;
        while first < total {
            let frames = next_chunk(total, first);
            let mut scratch: Vec<f32> = input[first * channels..(first + frames) * channels]
                .iter()
                .map(|sample| number(sanitize(scalar(*sample))))
                .collect();
            for channel in 0..channels {
                let mut squares = 0.0f64;
                let mut clipped = false;
                for frame in 0..frames {
                    let sample = scratch[frame * channels + channel]
                        * shown
                        * number(channel_gain(channel, left, right));
                    self.meter.observe(channel, scalar(sample));
                    squares += f64::from(sample) * f64::from(sample);
                    clipped |= sample.abs() >= 1.0;
                }
                merge(&mut self.meter, channel, squares, frames as u64, clipped);
            }
            for frame in 0..frames {
                let (level, audible) = engine
                    .strip
                    .next_gains(stepped(&engine.strip.gain), stepped(&engine.strip.audible));
                for channel in 0..channels {
                    scratch[frame * channels + channel] *= number(level) * number(audible);
                }
            }
            for channel in 0..channels {
                for frame in 0..frames {
                    let index = frame * channels + channel;
                    scratch[index] = equalize(&mut engine.strip.eqs[channel], scratch[index]);
                }
            }
            if offset > 0 {
                let mut block: Vec<Scalar> = scratch.iter().map(|s| scalar(*s)).collect();
                engine.strip.delay_block(&mut block, offset);
                scratch = block.into_iter().map(number).collect();
            }
            for feed in 0..engine.feed_count() {
                let width = engine.feed_channels(feed);
                for frame in 0..frames {
                    if !engine.feed_has_room(feed) {
                        break;
                    }
                    let half = &engine.roster.active[feed].half;
                    let steps = FeedSteps {
                        left: stepped(&half.balance_left),
                        right: stepped(&half.balance_right),
                        mix: match &half.mode_fade {
                            Some(fade) => stepped(&fade.mix),
                            None => Scalar::zero(),
                        },
                    };
                    let step = engine.feed_step(feed, steps);
                    let source_frame = &scratch[frame * channels..(frame + 1) * channels];
                    let bits: Vec<u32> = (0..width)
                        .map(|channel| {
                            let new = mapped(engine.active_mode, source_frame, channel, width);
                            let value = match step.fade {
                                Some((previous, t)) => {
                                    let old = mapped(previous, source_frame, channel, width);
                                    old + (new - old) * number(t)
                                }
                                None => new,
                            };
                            let gain = channel_gain(channel, step.left, step.right);
                            (value * number(gain)).to_bits()
                        })
                        .collect();
                    engine.feed_frame(feed, &bits);
                }
            }
            engine.end_fades();
            first += frames;
        }
        engine.end_block(generation);
    }
}

struct Controller {
    route_id: RouteId,
    integral: f64,
    ratio: f64,
    frac: f64,
}

struct Bus {
    engine: BusEngine,
    settings: Settings,
    meter: RouteMeter,
    controllers: Vec<Controller>,
}

impl Bus {
    fn controller(&mut self, route_id: RouteId) -> usize {
        match self.controllers.iter().position(|c| c.route_id == route_id) {
            Some(at) => at,
            None => {
                self.controllers.push(Controller {
                    route_id,
                    integral: 0.0,
                    ratio: 1.0,
                    frac: 0.0,
                });
                self.controllers.len() - 1
            }
        }
    }

    fn draw_debug(&mut self) -> Vec<(f64, usize)> {
        (0..self.engine.draw_count())
            .map(|draw| {
                let at = self.controller(self.engine.roster.active[draw].route_id);
                let ratio = self.controllers[at].ratio;
                (ratio, self.engine.draw_occupancy(draw))
            })
            .collect()
    }

    fn process(&mut self, output: &mut [f32]) {
        let generation = self.engine.begin_block();
        let ramp = self.engine.strip.ramp_frames;
        let balance = self.settings.balance_gains();
        let balance_steps = (
            step_to(&self.engine.balance_left, number(balance.0), ramp),
            step_to(&self.engine.balance_right, number(balance.1), ramp),
        );
        let gain = self.settings.gain();
        let gain_step = step_to(&self.engine.strip.gain, gain, ramp);
        let audible_step = step_to(&self.engine.strip.audible, self.settings.audible(), ramp);
        self.engine.refresh_targets(
            scalar(gain),
            gain_step,
            self.settings.controls.is_muted(),
            audible_step,
            balance,
            balance_steps,
        );
        self.engine
            .switch_mode(self.settings.mode, scalar(1.0 / ramp as f32));
        let offset = self.engine.strip.delay_samples(self.settings.delay_frames);
        self.engine.strip.refresh_eq(&self.settings.eq);
        let channels = self.engine.strip.channels;
        let total = output.len() / channels;
        let mut first = 0;
        while first < total {
            let frames = next_chunk(total, first);
            let mut sum = vec![0.0_f32; frames * channels];
            for draw in 0..self.engine.draw_count() {
                let occupancy = self.engine.draw_occupancy(draw);
                let at = self.controller(self.engine.roster.active[draw].route_id);
                let target = self.engine.roster.active[draw].half.corrector.target_frames;
                let controller = &mut self.controllers[at];
                let error = occupancy as f64 - target as f64;
                controller.integral = (controller.integral + error).clamp(-512.0, 512.0);
                let adjust =
                    (1.0e-6 * error + 2.0e-8 * controller.integral).clamp(-0.002, 0.002);
                controller.ratio += (1.0 + adjust - controller.ratio).clamp(-2.0e-5, 2.0e-5);
                for frame in 0..frames {
                    controller.frac += controller.ratio;
                    while controller.frac >= 1.0 {
                        self.engine.draw_frame(draw);
                        controller.frac -= 1.0;
                    }
                    let corrector = &self.engine.roster.active[draw].half.corrector;
                    for channel in 0..channels {
                        let previous = number(corrector.previous[channel]);
                        let current = number(corrector.current[channel]);
                        sum[frame * channels + channel] +=
                            previous + (current - previous) * controller.frac as f32;
                    }
                }
            }
            for frame in 0..frames {
                let (left, right) = self.engine.next_balance(
                    stepped(&self.engine.balance_left),
                    stepped(&self.engine.balance_right),
                );
                let (level, audible) = self.engine.strip.next_gains(
                    stepped(&self.engine.strip.gain),
                    stepped(&self.engine.strip.audible),
                );
                for channel in 0..channels {
                    sum[frame * channels + channel] *= number(level)
                        * number(audible)
                        * number(channel_gain(channel, left, right));
                }
            }
            if offset > 0 {
                let mut block: Vec<Scalar> = sum.iter().map(|s| scalar(*s)).collect();
                self.engine.strip.delay_block(&mut block, offset);
                sum = block.into_iter().map(number).collect();
            }
            for channel in 0..channels {
                for frame in 0..frames {
                    let index = frame * channels + channel;
                    sum[index] = equalize(&mut self.engine.strip.eqs[channel], sum[index]);
                }
            }
            for channel in 0..channels {
                let mut squares = 0.0f64;
                let mut clipped = false;
                for frame in 0..frames {
                    let index = frame * channels + channel;
                    clipped |= sum[index].abs() >= 1.0;
                    sum[index] = saturate(sum[index]);
                    self.meter.observe(channel, scalar(sum[index]));
                    squares += f64::from(sum[index]) * f64::from(sum[index]);
                }
                merge(&mut self.meter, channel, squares, frames as u64, clipped);
            }
            if self.engine.mode_fade.is_some() {
                for frame in 0..frames {
                    let value = match &self.engine.mode_fade {
                        Some(fade) => stepped(&fade.mix),
                        None => Scalar::zero(),
                    };
                    if let Some((previous, t)) = self.engine.next_mix(value) {
                        let (left, right) = (sum[frame * 2], sum[frame * 2 + 1]);
                        let (old_left, old_right) = mode_pair(previous, left, right);
                        let (new_left, new_right) =
                            mode_pair(self.engine.active_mode, left, right);
                        sum[frame * 2] = old_left + (new_left - old_left) * number(t);
                        sum[frame * 2 + 1] = old_right + (new_right - old_right) * number(t);
                    }
                }
            } else {
                reshape(self.engine.active_mode, &mut sum, channels);
            }
            self.engine.end_fade();
            output[first * channels..(first + frames) * channels].copy_from_slice(&sum);
            first += frames;
        }
        self.engine.end_block(generation);
    }
}

fn source_setup(channels: usize) -> (Source, SourceHandle) {
    let settings = Settings::new();
    let slot = Arc::new(PlanSlot::<SourcePlan>::new(SourcePlan {
        generation: 0,
        feeds: Vec::new(),
    }));
    let (engine, handle) = SourceEngine::new(
        channels,
        RATE,
        scalar(settings.gain()),
        settings.controls.is_muted(),
        settings.mode,
        slot,
    )
    .unwrap_or_else(|error| panic!("source engine: {}", error.message()));
    let meter = RouteMeter::new(channels);
    (Source { engine, settings, meter }, handle)
}

fn bus_setup(channels: usize) -> (Bus, BusHandle) {
    let settings = Settings::new();
    let slot = Arc::new(PlanSlot::<BusPlan>::new(BusPlan {
        generation: 0,
        routes: Vec::new(),
    }));
    let (engine, handle) = BusEngine::new(
        channels,
        RATE,
        scalar(settings.gain()),
        settings.controls.is_muted(),
        settings.balance_gains(),
        settings.mode,
        slot,
    )
    .unwrap_or_else(|error| panic!("bus engine: {}", error.message()));
    let meter = RouteMeter::new(channels);
    (
        Bus { engine, settings, meter, controllers: Vec::new() },
        handle,
    )
}

fn new_link(route_id: RouteId) -> RouteLink {
    RouteLink::new(route_id, CHANNELS, QUANTUM, TARGET_QUANTA, 48_000)
        .unwrap_or_else(|error| panic!("link: {}", error.message()))
}

fn deliver(
    source: &mut SourceHandle,
    bus: &mut BusHandle,
    route_id: RouteId,
    source_generation: u64,
    bus_generation: u64,
    balance: (Scalar, Scalar),
) {
    let (source_half, bus_half) = new_link(route_id)
        .into_halves(source_generation, bus_generation, balance)
        .unwrap_or_else(|error| panic!("halves: {}", error.message()));
    assert!(source.inbox.push(source_half).is_ok(), "inbox has capacity");
    assert!(bus.inbox.push(bus_half).is_ok(), "inbox has capacity");
}

fn link(
    source: &mut SourceHandle,
    bus: &mut BusHandle,
    route_id: RouteId,
    source_generation: &mut u64,
    bus_generation: &mut u64,
    settings: &Settings,
) {
    *source_generation += 1;
    *bus_generation += 1;
    let old_source = source.plan_slot.publish(SourcePlan {
        generation: *source_generation,
        feeds: vec![RouteFeed {
            route_id,
            bus_channels: CHANNELS,
        }],
    });
    source.reclaimer.retire(old_source);
    let old_bus = bus.plan_slot.publish(BusPlan {
        generation: *bus_generation,
        routes: vec![route_id],
    });
    bus.reclaimer.retire(old_bus);
    deliver(
        source,
        bus,
        route_id,
        *source_generation,
        *bus_generation,
        settings.balance_gains(),
    );
}

fn linked() -> (Source, SourceHandle, Bus, BusHandle) {
    let (source, mut source_handle) = source_setup(CHANNELS);
    let (bus, mut bus_handle) = bus_setup(CHANNELS);
    link(
        &mut source_handle,
        &mut bus_handle,
        RouteId::new(),
        &mut 0,
        &mut 0,
        &source.settings,
    );
    (source, source_handle, bus, bus_handle)
}

fn two_linked() -> (Source, SourceHandle, Source, SourceHandle, Bus, BusHandle) {
    let (source_a, mut handle_a) = source_setup(CHANNELS);
    let (source_b, mut handle_b) = source_setup(CHANNELS);
    let (bus, mut bus_handle) = bus_setup(CHANNELS);
    let route_a = RouteId::new();
    let route_b = RouteId::new();
    for (handle, route_id) in [(&mut handle_a, route_a), (&mut handle_b, route_b)] {
        let old = handle.plan_slot.publish(SourcePlan {
            generation: 1,
            feeds: vec![RouteFeed {
                route_id,
                bus_channels: CHANNELS,
            }],
        });
        handle.reclaimer.retire(old);
    }
    let old = bus_handle.plan_slot.publish(BusPlan {
        generation: 1,
        routes: vec![route_a, route_b],
    });
    bus_handle.reclaimer.retire(old);
    let balance = source_a.settings.balance_gains();
    deliver(&mut handle_a, &mut bus_handle, route_a, 1, 1, balance);
    let balance = source_b.settings.balance_gains();
    deliver(&mut handle_b, &mut bus_handle, route_b, 1, 1, balance);
    (source_a, handle_a, source_b, handle_b, bus, bus_handle)
}

fn constant_block(value: f32, frames: usize, channels: usize) -> Vec<f32> {
    vec![value; frames * channels]
}

fn sided_block() -> Vec<f32> {
    let mut input = vec![0.0_f32; QUANTUM as usize * CHANNELS];
    for frame in input.chunks_exact_mut(2) {
        frame[0] = 0.8;
        frame[1] = -0.2;
    }
    input
}

#[test]
fn source_to_bus_passes_signal_click_free() {
    let (mut source, _source_handle, mut bus, _bus_handle) = linked();
    let input = constant_block(0.5, QUANTUM as usize, CHANNELS);
    let mut output = constant_block(0.0, QUANTUM as usize, CHANNELS);
    for _ in 0..8 {
        source.process(&input);
        bus.process(&mut output);
    }

    let tail = &output[output.len() - 8..];
    assert!(
        tail.iter().all(|sample| (sample - 0.5).abs() < 1.0e-6),
        "unity route must converge to the source exactly: {tail:?}"
    );
    assert!(read(&mut source.meter)
        .iter()
        .any(|reading| number(reading.peak) > 0.4));
    assert!(read(&mut bus.meter)
        .iter()
        .all(|reading| number(reading.peak) > 0.4));
}

#[test]
fn bus_sums_multiple_routes_sample_by_sample() {
    let (mut source_a, _a, mut source_b, _b, mut bus, _bus_handle) = two_linked();
    let input_a = constant_block(0.25, QUANTUM as usize, CHANNELS);
    let input_b = constant_block(0.5, QUANTUM as usize, CHANNELS);
    let mut output = constant_block(0.0, QUANTUM as usize, CHANNELS);
    for _ in 0..8 {
        source_a.process(&input_a);
        source_b.process(&input_b);
        bus.process(&mut output);
    }

    let tail = &output[output.len() - 8..];
    assert!(
        tail.iter().all(|sample| (sample - 0.75).abs() < 1.0e-6),
        "the bus must sum both routes exactly: {tail:?}"
    );
}

#[test]
fn bus_gain_and_mute_ramp_without_steps() {
    let (mut source, _source_handle, mut bus, _bus_handle) = linked();
    let input = constant_block(1.0, QUANTUM as usize, CHANNELS);
    let mut output = constant_block(0.0, QUANTUM as usize, CHANNELS);
    for _ in 0..8 {
        source.process(&input);
        bus.process(&mut output);
    }
    assert!(output[output.len() - 1] > 0.9, "settled at unity");

    bus.settings.controls.set_muted(true);
    let mut previous = output[output.len() - 1];
    let mut saw_intermediate = false;
    for _ in 0..4 {
        source.process(&input);
        bus.process(&mut output);
        for &sample in output.iter() {
            let step = (sample - previous).abs();
            assert!(step <= 0.05, "mute must ramp, not jump (step {step})");
            if sample > 0.01 && sample < previous {
                saw_intermediate = true;
            }
            previous = sample;
        }
    }
    assert!(saw_intermediate, "ramp produced intermediate levels");
    assert!(
        output[output.len() - 1].abs() < 1.0e-3,
        "muted bus is silent"
    );
}

#[test]
fn bus_balance_attenuates_only_the_opposite_side() {
    let (mut source, _source_handle, mut bus, _bus_handle) = linked();
    bus.settings
        .controls
        .set_balance(NormalizedBalance::new(scalar(1.0)).unwrap());

    let input = constant_block(0.5, QUANTUM as usize, CHANNELS);
    let mut output = constant_block(0.0, QUANTUM as usize, CHANNELS);
    for _ in 0..10 {
        source.process(&input);
        bus.process(&mut output);
    }

    let tail = &output[output.len() - 8..];
    let left: f32 = tail.iter().step_by(2).copied().sum();
    let right: f32 = tail.iter().skip(1).step_by(2).copied().sum();
    assert!(
        left.abs() < 1.0e-6,
        "full-right balance silences left: {left}"
    );
    assert!(
        (right - 0.5 * 4.0).abs() < 1.0e-5,
        "right stays at unity: {right}"
    );
}

#[test]
fn empty_bus_outputs_silence_and_holds_on_underrun() {
    let (mut source, _source_handle, mut bus, _bus_handle) = linked();
    let mut output = constant_block(7.0, QUANTUM as usize, CHANNELS);
    bus.process(&mut output);
    assert!(
        output.iter().all(|sample| *sample == 0.0),
        "starved bus must output silence"
    );

    let input = constant_block(0.8, QUANTUM as usize, CHANNELS);
    source.process(&input);
    bus.process(&mut output);
    for _ in 0..4 {
        bus.process(&mut output);
        assert!(output.iter().all(|sample| sample.is_finite()));
    }
    assert!(
        output[output.len() - 1] > 0.1,
        "held frame keeps the last real signal, not zeros"
    );
}

#[test]
fn plans_are_reclaimed_only_after_the_callback_completes_them() {
    let (_source, mut handle) = source_setup(CHANNELS);

    let gen1 = handle.plan_slot.publish(SourcePlan {
        generation: 1,
        feeds: Vec::new(),
    });
    handle.reclaimer.retire(gen1);
    let gen2 = handle.plan_slot.publish(SourcePlan {
        generation: 2,
        feeds: Vec::new(),
    });
    handle.reclaimer.retire(gen2);

    handle.reclaimer.collect(&handle.plan_slot);
    assert_eq!(handle.plan_slot.completed(), 0);
    assert_eq!(handle.reclaimer.retired.len(), 2, "both retired plans survive");

    handle.plan_slot.complete(1);
    handle.reclaimer.collect(&handle.plan_slot);
    assert_eq!(handle.reclaimer.retired.len(), 1);
    assert_eq!(handle.reclaimer.retired[0].generation, 1);
    handle.plan_slot.complete(2);
    handle.reclaimer.collect(&handle.plan_slot);
    assert_eq!(handle.plan_slot.completed(), 2);
    assert!(handle.reclaimer.retired.is_empty());
    assert_eq!(handle.plan_slot.load().generation, 2);
}

#[test]
fn sync_offset_delays_by_exactly_the_configured_samples() {
    let mut line = vec![Scalar::zero(); 64];
    let mut write = 0;
    let output: Vec<f32> = (1..=8)
        .map(|sample| {
            number(apply_sync_offset(
                scalar(sample as f32),
                &mut line,
                &mut write,
                2,
            ))
        })
        .collect();
    assert_eq!(output, vec![0.0, 0.0, 1.0, 2.0, 3.0, 4.0, 5.0, 6.0]);

    let passthrough: Vec<f32> = (1..=4)
        .map(|sample| {
            number(apply_sync_offset(
                scalar(sample as f32),
                &mut line,
                &mut write,
                0,
            ))
        })
        .collect();
    assert_eq!(passthrough, vec![1.0, 2.0, 3.0, 4.0]);
}

#[test]
fn source_delay_shifts_the_delivered_signal() {
    let (mut source, _source_handle, mut bus, _bus_handle) = linked();
    source.settings.delay_frames = 8;
    let input = constant_block(0.5, QUANTUM as usize, CHANNELS);
    let mut output = constant_block(0.0, QUANTUM as usize, CHANNELS);
    source.process(&input);
    bus.process(&mut output);
    assert!(
        output[..8 * CHANNELS]
            .iter()
            .all(|sample| sample.abs() < 1e-6),
        "delayed source must not deliver signal before the delay elapses"
    );
    assert!(
        output[12 * CHANNELS..].iter().any(|sample| *sample > 0.4),
        "and delivers it behind"
    );
}

#[test]
fn channel_mode_mapping_matches_legacy_rules() {
    assert_eq!(mapped(ChannelMode::Auto, &[0.25], 0, CHANNELS), 0.25);
    assert_eq!(mapped(ChannelMode::Auto, &[0.25], 1, CHANNELS), 0.25);
    assert_eq!(mapped(ChannelMode::Auto, &[0.5, -0.5], 0, 1), 0.0);
    assert_eq!(mapped(ChannelMode::Auto, &[0.5, -0.5], 1, CHANNELS), -0.5);
    assert_eq!(mapped(ChannelMode::Swap, &[0.5, -0.5], 0, CHANNELS), -0.5);
    assert_eq!(mapped(ChannelMode::Left, &[0.5, -0.5], 1, CHANNELS), 0.5);
    assert_eq!(mapped(ChannelMode::Mono, &[0.5, -0.5], 1, CHANNELS), 0.0);
}

#[test]
fn narrow_sources_leave_the_other_channels_silent() {
    assert_eq!(
        capture_mode_frame(ChannelMode::Stereo, 2, 3, 4),
        FrameTap::Silence
    );
    assert_eq!(
        capture_mode_frame(ChannelMode::Right, 1, 0, 2),
        FrameTap::Channel(0)
    );
    assert_eq!(
        capture_mode_frame(ChannelMode::Swap, 2, 5, 6),
        FrameTap::Channel(0)
    );
    assert_eq!(
        capture_mode_frame(ChannelMode::Mono, 2, 0, 2),
        FrameTap::Mean
    );
}

#[test]
fn output_mode_post_pass_reshapes_stereo_only() {
    let mut block = vec![1.0, -1.0, 0.5, -0.5];
    reshape(ChannelMode::Swap, &mut block, 2);
    assert_eq!(block, vec![-1.0, 1.0, -0.5, 0.5]);

    let mut mono = vec![1.0, -1.0];
    reshape(ChannelMode::Swap, &mut mono, 1);
    assert_eq!(mono, vec![1.0, -1.0], "mono buses pass through");
}

#[test]
fn swapping_twice_gives_the_block_back() {
    let mut block = vec![0.1, 0.2, 0.3, 0.4, 0.9];
    reshape(ChannelMode::Swap, &mut block, 2);
    assert_eq!(block, vec![0.2, 0.1, 0.4, 0.3, 0.9]);
    reshape(ChannelMode::Swap, &mut block, 2);
    assert_eq!(block, vec![0.1, 0.2, 0.3, 0.4, 0.9]);
    reshape(ChannelMode::Mono, &mut block, 2);
    assert_eq!(block[0], block[1]);
    assert_eq!(block[0], (0.1 + 0.2) * 0.5);
}

#[test]
fn output_mode_crossfade_blends_between_mappings() {
    let mut mix = ParameterSmoother::new(scalar(0.0)).expect("finite");
    mix.set_target(scalar(1.0), 4, scalar(0.25)).expect("ramp");
    let mut block = vec![0.8, -0.2, 0.8, -0.2, 0.8, -0.2, 0.8, -0.2];
    blend(ChannelMode::Left, ChannelMode::Right, &mut mix, &mut block);
    let expected = [0.55, 0.55, 0.3, 0.3, 0.05, 0.05, -0.2, -0.2];
    for (actual, expected) in block.iter().zip(expected) {
        assert!(
            (actual - expected).abs() < 1.0e-6,
            "blend point: {actual} vs {expected}"
        );
    }
}

#[test]
fn source_mode_switch_crossfades_without_clicks() {
    let (mut source, _source_handle, mut bus, _bus_handle) = linked();
    let input = sided_block();
    let mut output = vec![0.0_f32; QUANTUM as usize * CHANNELS];
    for _ in 0..8 {
        source.process(&input);
        bus.process(&mut output);
    }
    assert!(
        (output[output.len() - 2] - 0.8).abs() < 0.01,
        "Auto maps L to the left channel"
    );

    source.settings.mode = ChannelMode::Right;
    let mut previous = output[output.len() - 2];
    let mut max_step = 0.0_f32;
    let mut final_left = previous;
    for _ in 0..12 {
        source.process(&input);
        bus.process(&mut output);
        for frame in output.chunks_exact(2) {
            max_step = max_step.max((frame[0] - previous).abs());
            previous = frame[0];
            final_left = frame[0];
        }
    }
    assert!(
        max_step < 0.01,
        "mode switch must crossfade, not click (max step {max_step})"
    );
    assert!(
        (final_left + 0.2).abs() < 0.01,
        "converged to the Right mapping: {final_left}"
    );
    assert!(source.engine.roster.active[0].half.mode_fade.is_none());
}

#[test]
fn bus_mode_switch_crossfades_without_clicks() {
    let (mut source, _source_handle, mut bus, _bus_handle) = linked();
    let input = sided_block();
    let mut output = vec![0.0_f32; QUANTUM as usize * CHANNELS];
    for _ in 0..8 {
        source.process(&input);
        bus.process(&mut output);
    }

    bus.settings.mode = ChannelMode::Swap;
    let mut previous = output[output.len() - 1];
    let mut max_step = 0.0_f32;
    let mut final_right = previous;
    for _ in 0..12 {
        source.process(&input);
        bus.process(&mut output);
        for frame in output.chunks_exact(2) {
            max_step = max_step.max((frame[1] - previous).abs());
            previous = frame[1];
            final_right = frame[1];
        }
    }
    assert!(
        max_step < 0.01,
        "bus mode switch must crossfade, not click (max step {max_step})"
    );
    assert!(
        (final_right - 0.8).abs() < 0.01,
        "converged to the swapped mapping: {final_right}"
    );
    assert!(bus.engine.mode_fade.is_none());
}

#[test]
fn corrector_target_is_one_quantum_validated_to_two() {
    assert_eq!(corrector_target_frames(512, TARGET_QUANTA), 512);
    assert_eq!(corrector_target_frames(512, MAX_TARGET_QUANTA), 1024);
    assert_eq!(
        corrector_target_frames(512, 9),
        1024,
        "targets past two quanta clamp"
    );
    assert_eq!(corrector_target_frames(0, 1), 1, "never zero");
}

#[test]
fn ring_capacity_scales_with_quantum() {
    assert_eq!(ring_capacity_frames(512), 16_384);
    assert_eq!(ring_capacity_frames(16_384), 65_536);
}

#[test]
fn control_ramp_is_ten_ms_at_any_rate() {
    assert_eq!(control_ramp_frames(48_000), 480);
    assert_eq!(control_ramp_frames(768_000), 7_680);
    assert_eq!(control_ramp_frames(0), 1);
}

#[test]
fn engine_keeps_output_finite_when_producer_overruns() {
    let (mut source, _source_handle, mut bus, _bus_handle) = linked();
    let input = constant_block(1.0, QUANTUM as usize, CHANNELS);
    for _ in 0..200 {
        source.process(&input);
    }
    let mut output = constant_block(0.0, QUANTUM as usize, CHANNELS);
    bus.process(&mut output);
    assert!(output.iter().all(|sample| sample.is_finite()));
}

fn unlink(
    source: &mut SourceHandle,
    bus: &mut BusHandle,
    source_generation: &mut u64,
    bus_generation: &mut u64,
) {
    *source_generation += 1;
    *bus_generation += 1;
    let old_source = source.plan_slot.publish(SourcePlan {
        generation: *source_generation,
        feeds: Vec::new(),
    });
    source.reclaimer.retire(old_source);
    let old_bus = bus.plan_slot.publish(BusPlan {
        generation: *bus_generation,
        routes: Vec::new(),
    });
    bus.reclaimer.retire(old_bus);
}

fn collect_backend_garbage(source: &mut SourceHandle, bus: &mut BusHandle) {
    while source.retired.pop().is_ok() {}
    while bus.retired.pop().is_ok() {}
    source.reclaimer.collect(&source.plan_slot);
    bus.reclaimer.collect(&bus.plan_slot);
}

#[test]
fn plan_churn_under_continuous_audio_stays_stable() {
    let (mut source, mut source_handle) = source_setup(CHANNELS);
    let (mut bus, mut bus_handle) = bus_setup(CHANNELS);
    let mut source_generation = 0;
    let mut bus_generation = 0;
    let input = constant_block(0.5, QUANTUM as usize, CHANNELS);
    let mut output = constant_block(0.0, QUANTUM as usize, CHANNELS);

    for cycle in 0..60 {
        let route_id = RouteId::new();
        link(
            &mut source_handle,
            &mut bus_handle,
            route_id,
            &mut source_generation,
            &mut bus_generation,
            &source.settings,
        );
        source.process(&input);
        bus.process(&mut output);
        assert!(
            output.iter().all(|sample| sample.is_finite()),
            "cycle {cycle}: output must stay finite"
        );
        unlink(
            &mut source_handle,
            &mut bus_handle,
            &mut source_generation,
            &mut bus_generation,
        );
        source.process(&input);
        bus.process(&mut output);
        collect_backend_garbage(&mut source_handle, &mut bus_handle);
    }
    let bus_debug = bus.draw_debug();
    assert!(
        bus_debug.is_empty(),
        "every churned route must be retired: {bus_debug:?}"
    );
    assert!(output.iter().all(|sample| *sample == 0.0));
    assert!(source.engine.roster.retiring.is_empty());
    assert!(source_handle.reclaimer.retired.is_empty());
}

#[test]
fn hot_mix_is_bounded_by_the_always_on_saturator() {
    let (mut source_a, _a, mut source_b, _b, mut bus, _bus_handle) = two_linked();
    let input_a = constant_block(1.0, QUANTUM as usize, CHANNELS);
    let input_b = constant_block(1.0, QUANTUM as usize, CHANNELS);
    let mut output = constant_block(0.0, QUANTUM as usize, CHANNELS);
    for _ in 0..8 {
        source_a.process(&input_a);
        source_b.process(&input_b);
        bus.process(&mut output);
    }

    assert!(
        output.iter().all(|sample| sample.abs() <= 1.0),
        "the summed bus must never exceed ±1.0"
    );
    let tail = &output[output.len() - 8..];
    assert!(
        tail.iter().all(|sample| *sample > 0.9),
        "a hot but legal mix saturates close to full scale: {tail:?}"
    );
}

#[test]
fn meters_report_rms_and_pre_saturator_clip() {
    let (mut source, mut source_handle) = source_setup(CHANNELS);
    let (mut bus, mut bus_handle) = bus_setup(CHANNELS);
    let route_a = RouteId::new();
    let route_b = RouteId::new();

    let old_source = source_handle.plan_slot.publish(SourcePlan {
        generation: 1,
        feeds: vec![
            RouteFeed {
                route_id: route_a,
                bus_channels: CHANNELS,
            },
            RouteFeed {
                route_id: route_b,
                bus_channels: CHANNELS,
            },
        ],
    });
    source_handle.reclaimer.retire(old_source);
    let old_bus = bus_handle.plan_slot.publish(BusPlan {
        generation: 1,
        routes: vec![route_a, route_b],
    });
    bus_handle.reclaimer.retire(old_bus);
    for route_id in [route_a, route_b] {
        let balance = source.settings.balance_gains();
        deliver(&mut source_handle, &mut bus_handle, route_id, 1, 1, balance);
    }

    let input = constant_block(0.8, QUANTUM as usize, CHANNELS);
    let mut output = constant_block(0.0, QUANTUM as usize, CHANNELS);
    for _ in 0..8 {
        source.process(&input);
        bus.process(&mut output);
    }

    let readings = read(&mut bus.meter);
    assert_eq!(readings.len(), CHANNELS);
    for reading in &readings {
        assert!(reading.clipped, "hot mix must raise the clip flag");
        assert!(number(reading.peak) <= 1.0, "peak reads the bounded output");
        assert!(
            number(reading.peak) > 0.9,
            "saturated mix stays near full scale"
        );
        let expected = saturate(1.6);
        assert!(
            (number(reading.rms) - expected).abs() < 0.02,
            "RMS tracks the bounded signal: {} vs {expected}",
            number(reading.rms)
        );
    }
    let readings = read(&mut bus.meter);
    assert!(readings.iter().all(|reading| !reading.clipped));
}

#[test]
fn drift_corrector_tracks_a_fast_source_clock() {
    let (mut source, _source_handle, mut bus, _bus_handle) = linked();
    let frames = QUANTUM as usize;
    let mut output = constant_block(0.0, frames, CHANNELS);
    let mut phase = 0.0_f32;
    let mut max_occupancy = 0_usize;
    for block in 0..4_000 {
        let extra = if block % 4 == 0 { 2 } else { 1 };
        let input: Vec<f32> = (0..(frames + extra) * CHANNELS)
            .map(|_| {
                let sample = phase.sin() * 0.25;
                phase += 0.05;
                sample
            })
            .collect();
        source.process(&input);
        bus.process(&mut output);
        assert!(
            output.iter().all(|sample| sample.is_finite()),
            "block {block}: output must stay finite under drift"
        );
        if block % 100 == 0 {
            for (_, occupancy) in bus.draw_debug() {
                max_occupancy = max_occupancy.max(occupancy);
            }
        }
    }

    let (ratio, occupancy) = bus
        .draw_debug()
        .into_iter()
        .next()
        .expect("route still linked");
    assert!(
        ratio > 1.0,
        "corrector must consume faster than nominal under a fast source: {ratio}"
    );
    assert!(
        ratio <= 1.0021,
        "correction stays within the ±0.2% clamp: {ratio}"
    );
    let capacity = ring_capacity_frames(QUANTUM);
    assert!(
        occupancy < capacity / 2 && max_occupancy < capacity / 2,
        "occupancy must stay far from overrun (max {max_occupancy}, capacity {capacity})"
    );
    let peak = output.iter().fold(0.0_f32, |peak, s| peak.max(s.abs()));
    assert!(peak > 0.1, "signal must keep flowing: peak {peak}");
}

#[test]
fn drift_corrector_tracks_a_slow_source_clock() {
    let (mut source, _source_handle, mut bus, _bus_handle) = linked();
    let frames = QUANTUM as usize;
    let mut output = constant_block(0.0, frames, CHANNELS);
    let mut phase = 0.0_f32;
    for block in 0..2_000 {
        let delivered = frames - usize::from(block % 2 == 0);
        let input: Vec<f32> = (0..delivered * CHANNELS)
            .map(|_| {
                let sample = phase.sin() * 0.25;
                phase += 0.05;
                sample
            })
            .collect();
        source.process(&input);
        bus.process(&mut output);
        assert!(
            output.iter().all(|sample| sample.is_finite()),
            "block {block}: held frames must stay finite"
        );
    }

    let (ratio, _) = bus
        .draw_debug()
        .into_iter()
        .next()
        .expect("route still linked");
    assert!(
        ratio < 1.0,
        "corrector must slow consumption under a slow source: {ratio}"
    );
    assert!(ratio >= 0.9979, "correction stays within clamp: {ratio}");
    let peak = output.iter().fold(0.0_f32, |peak, s| peak.max(s.abs()));
    assert!(peak > 0.1, "held-frame glide must not silence the bus");
}

#[test]
fn a_full_ring_refuses_frames_and_takes_them_again() {
    let (mut source, _source_handle, mut bus, _bus_handle) = linked();
    source.engine.begin_block();
    bus.engine.begin_block();
    let mut written = 0usize;
    while source.engine.feed_has_room(0) {
        assert!(source.engine.feed_frame(0, &vec![0.5f32.to_bits(), 0.25f32.to_bits()]));
        written += 1;
    }
    assert_eq!(written, ring_capacity_frames(QUANTUM));
    assert!(!source.engine.feed_frame(0, &vec![1, 2]));
    assert_eq!(bus.engine.draw_occupancy(0), written);
    bus.engine.draw_frame(0);
    let corrector = &bus.engine.roster.active[0].half.corrector;
    assert_eq!(number(corrector.current[0]), 0.5);
    assert_eq!(number(corrector.current[1]), 0.25);
    assert!(source.engine.feed_has_room(0));
}

#[test]
fn a_half_that_waits_for_its_plan_comes_into_use_with_it() {
    let (mut source, mut handle) = source_setup(CHANNELS);
    let (_bus, mut bus_handle) = bus_setup(CHANNELS);
    let route_id = RouteId::new();
    let balance = source.settings.balance_gains();
    deliver(&mut handle, &mut bus_handle, route_id, 1, 1, balance);
    assert_eq!(source.engine.begin_block(), 0);
    assert_eq!(source.engine.feed_count(), 0);
    assert_eq!(source.engine.roster.pending.len(), 1);
    let old = handle.plan_slot.publish(SourcePlan {
        generation: 1,
        feeds: vec![RouteFeed { route_id, bus_channels: CHANNELS }],
    });
    handle.reclaimer.retire(old);
    assert_eq!(source.engine.begin_block(), 1);
    assert_eq!(source.engine.feed_count(), 1);
    assert_eq!(source.engine.feed_channels(0), CHANNELS);
    let old = handle.plan_slot.publish(SourcePlan { generation: 2, feeds: Vec::new() });
    handle.reclaimer.retire(old);
    source.engine.begin_block();
    assert_eq!(source.engine.feed_count(), 0);
    let returned = handle.retired.pop();
    assert!(returned.is_ok_and(|half| half.route_id == route_id));
}

#[test]
fn publishers_list_what_they_deliver() {
    let (_source, handle) = source_setup(CHANNELS);
    let (_bus, bus_handle) = bus_setup(CHANNELS);
    let mut publisher = SourcePublisher::new(handle);
    let mut bus_publisher = BusPublisher::new(bus_handle);
    assert!(!publisher.has_routes());
    assert!(!bus_publisher.has_routes());
    let balance = (scalar(1.0), scalar(1.0));
    let mut last = None;
    for at in 0..INBOX_CAPACITY + 1 {
        let route_id = RouteId::new();
        let (feed, draw) = new_link(route_id)
            .into_halves(
                publisher.next_generation(),
                bus_publisher.next_generation(),
                balance,
            )
            .unwrap_or_else(|error| panic!("{}", error.message()));
        let fed = publisher.add_feed(route_id, CHANNELS, feed);
        let drawn = bus_publisher.add_draw(route_id, draw);
        assert_eq!(fed.is_ok(), at < INBOX_CAPACITY);
        assert_eq!(drawn.is_ok(), at < INBOX_CAPACITY);
        if fed.is_ok() {
            last = Some(route_id);
        }
    }
    assert_eq!(publisher.feeds.len(), INBOX_CAPACITY);
    assert_eq!(bus_publisher.routes.len(), INBOX_CAPACITY);
    assert_eq!(publisher.generation, INBOX_CAPACITY as u64 + 2);
    let last = last.unwrap_or_else(RouteId::new);
    publisher.remove_feed(last);
    bus_publisher.remove_draw(last);
    assert_eq!(publisher.feeds.len(), INBOX_CAPACITY - 1);
    assert!(publisher.feeds.iter().all(|feed| feed.route_id != last));
    assert!(bus_publisher.routes.iter().all(|route| *route != last));
    assert_eq!(
        publisher.handle.plan_slot.load().feeds.len(),
        INBOX_CAPACITY - 1
    );
    publisher.collect_garbage();
    bus_publisher.collect_garbage();
    assert!(MAX_ROUTES_PER_ENDPOINT < INBOX_CAPACITY);
}

#[test]
fn more_deliveries_than_routes_wait_in_the_inbox() {
    let (mut source, handle) = source_setup(CHANNELS);
    let (_bus, bus_handle) = bus_setup(CHANNELS);
    let mut publisher = SourcePublisher::new(handle);
    let mut kept = Vec::new();
    for _ in 0..MAX_ROUTES_PER_ENDPOINT + 4 {
        let route_id = RouteId::new();
        let (feed, draw) = new_link(route_id)
            .into_halves(publisher.next_generation(), 1, (scalar(1.0), scalar(1.0)))
            .unwrap_or_else(|error| panic!("{}", error.message()));
        assert!(publisher.add_feed(route_id, CHANNELS, feed).is_ok());
        kept.push(draw);
    }
    source.engine.begin_block();
    assert_eq!(source.engine.feed_count(), MAX_ROUTES_PER_ENDPOINT);
    source.engine.begin_block();
    assert_eq!(source.engine.feed_count(), MAX_ROUTES_PER_ENDPOINT);
    publisher.collect_garbage();
    drop(bus_handle);
}

#[test]
fn links_and_engines_refuse_what_cannot_work() {
    assert!(matches!(
        RouteLink::new(RouteId::new(), 0, QUANTUM, 1, 48_000),
        Err(DspError::InvalidChannelCount(0))
    ));
    assert!(matches!(
        RouteLink::new(RouteId::new(), 2, QUANTUM, 1, 0),
        Err(DspError::InvalidSampleRate(0))
    ));
    assert!(matches!(
        new_link(RouteId::new()).into_halves(1, 1, (scalar(f32::NAN), scalar(1.0))),
        Err(DspError::InvalidParameter("smoother value"))
    ));
    let slot = Arc::new(PlanSlot::<SourcePlan>::new(SourcePlan { generation: 0, feeds: Vec::new() }));
    assert!(matches!(
        SourceEngine::new(
            MAX_CHANNELS + 1,
            RATE,
            scalar(1.0),
            false,
            ChannelMode::Auto,
            slot
        ),
        Err(DspError::InvalidChannelCount(count)) if count == MAX_CHANNELS + 1
    ));
}

#[test]
fn meters_fall_off_while_nothing_plays() {
    let mut meter = RouteMeter::new(1);
    meter.observe(0, scalar(-0.8));
    meter.observe(0, scalar(f32::NAN));
    meter.observe(0, scalar(0.25));
    merge(&mut meter, 0, 0.5, 2, true);
    let first = read(&mut meter);
    assert_eq!(number(first[0].peak), 0.8);
    assert_eq!(number(first[0].rms), 0.5);
    assert!(first[0].clipped);
    let second = read(&mut meter);
    assert_eq!(number(second[0].peak), 0.4);
    assert_eq!(number(second[0].rms), 0.25);
    assert!(!second[0].clipped);
    assert_eq!(meter.next_sequence(), 0);
    assert_eq!(meter.next_sequence(), 1);
    meter.observe(0, scalar(4.0));
    assert_eq!(number(read(&mut meter)[0].peak), 1.0);
}

#[test]
fn blocks_are_cut_and_delays_bounded() {
    assert_eq!(next_chunk(10_000, 0), MAX_BLOCK_FRAMES);
    assert_eq!(next_chunk(10_000, 2 * MAX_BLOCK_FRAMES), 10_000 - 2 * MAX_BLOCK_FRAMES);
    assert_eq!(delay_line_capacity(48_000, 2), 48_000);
    assert_eq!(delay_line_capacity(1, 0), 1);
    assert_eq!(offset_samples(8, 2, 64), 16);
    assert_eq!(offset_samples(100, 2, 64), 64);
    assert_eq!(offset_samples(32, 2, 64), 64);
    assert_eq!(offset_samples(100, 2, 65), 64, "whole frames");
    assert_eq!(offset_samples(100, 0, 64), 0);
    let line = delay_line_capacity(48_000, 2);
    assert_eq!(offset_samples(24_000, 2, line), 48_000, "half a second is not cut short");
    assert_eq!(offset_samples(23_999, 2, line), 47_998);
    assert_eq!(number(sanitize(scalar(f32::INFINITY))), 0.0);
    assert_eq!(number(channel_gain(2, scalar(0.5), scalar(0.25))), 1.0);
}

#[test]
fn samples_clip_at_full_scale() {
    assert!(clips(scalar(1.0)));
    assert!(clips(scalar(-1.5)));
    assert!(clips(scalar(f32::INFINITY)));
    assert!(!clips(scalar(0.999)));
    assert!(!clips(scalar(f32::NAN)));
}

#[test]
fn deliveries_are_taken_in_order_while_there_is_room() {
    let (mut source, mut handle) = source_setup(CHANNELS);
    let (mut bus, mut bus_handle) = bus_setup(CHANNELS);
    let balance = source.settings.balance_gains();
    let routes: Vec<RouteId> = (0..40).map(|_| RouteId::new()).collect();
    for route_id in &routes {
        deliver(&mut handle, &mut bus_handle, *route_id, 7, 9, balance);
    }
    source.engine.take_deliveries();
    bus.engine.take_deliveries();
    let feeds: Vec<RouteId> = source.engine.roster.pending.iter().map(|half| half.route_id).collect();
    let draws: Vec<RouteId> = bus.engine.roster.pending.iter().map(|half| half.route_id).collect();
    assert_eq!(feeds, routes[..32], "no more than an endpoint has routes");
    assert_eq!(draws, routes[..32]);
    assert!(source.engine.roster.pending.iter().all(|half| half.generation == 7));
    assert!(bus.engine.roster.pending.iter().all(|half| half.generation == 9));
    assert_eq!(source.engine.inbox.slots(), 8, "the rest stays in the inbox");
    source.engine.roster.pending.clear();
    source.engine.take_deliveries();
    let feeds: Vec<RouteId> = source.engine.roster.pending.iter().map(|half| half.route_id).collect();
    assert_eq!(feeds, routes[32..]);
    assert_eq!(source.engine.inbox.slots(), 0);
}

#[test]
fn a_delay_as_long_as_the_line_keeps_the_sides_apart() {
    let mut line = vec![Scalar::zero(); 4];
    let mut write = 0;
    let output: Vec<f32> = (1..=10)
        .map(|sample| number(apply_sync_offset(scalar(sample as f32), &mut line, &mut write, 4)))
        .collect();
    assert_eq!(output, vec![0.0, 0.0, 0.0, 0.0, 1.0, 2.0, 3.0, 4.0, 5.0, 6.0]);
}

#[test]
fn halves_go_back_while_the_outbox_has_room() {
    let (mut source, mut handle) = source_setup(CHANNELS);
    let (mut bus, mut bus_handle) = bus_setup(CHANNELS);
    let balance = source.settings.balance_gains();
    let routes: Vec<RouteId> = (0..3).map(|_| RouteId::new()).collect();
    for route_id in &routes {
        deliver(&mut handle, &mut bus_handle, *route_id, 1, 1, balance);
    }
    let old = handle.plan_slot.publish(SourcePlan { generation: 2, feeds: Vec::new() });
    handle.reclaimer.retire(old);
    let old = bus_handle.plan_slot.publish(BusPlan { generation: 2, routes: Vec::new() });
    bus_handle.reclaimer.retire(old);
    let room = source.engine.outbox.slots();
    let bus_room = bus.engine.outbox.slots();
    assert_eq!(source.engine.begin_block(), 2);
    assert_eq!(bus.engine.begin_block(), 2);
    assert!(source.engine.roster.retiring.is_empty());
    assert!(bus.engine.roster.retiring.is_empty());
    assert_eq!(source.engine.outbox.slots(), room - 3);
    assert_eq!(bus.engine.outbox.slots(), bus_room - 3);
    let mut back = Vec::new();
    while let Ok(half) = handle.retired.pop() {
        back.push(half.route_id);
    }
    assert_eq!(back.len(), routes.len(), "nothing is let go on the callback");
    assert!(routes.iter().all(|route_id| back.contains(route_id)));
    assert_eq!(source.engine.roster.hand_back(&mut source.engine.outbox), 0);
}

#[test]
fn a_full_outbox_keeps_the_halves_for_later() {
    let (mut source, mut handle) = source_setup(CHANNELS);
    let balance = source.settings.balance_gains();
    let room = source.engine.outbox.slots();
    let mut generation = 0;
    let mut sent = 0;
    while sent <= room {
        generation += 2;
        for _ in 0..8 {
            let (half, _) = new_link(RouteId::new())
                .into_halves(generation - 1, 1, balance)
                .unwrap_or_else(|error| panic!("halves: {}", error.message()));
            assert!(handle.inbox.push(half).is_ok(), "inbox has capacity");
            sent += 1;
        }
        let old = handle.plan_slot.publish(SourcePlan { generation, feeds: Vec::new() });
        handle.reclaimer.retire(old);
        source.engine.begin_block();
    }
    let waiting = source.engine.roster.retiring.len();
    assert_eq!(waiting, sent - room);
    assert!(waiting > 0);
    assert_eq!(source.engine.roster.hand_back(&mut source.engine.outbox), 0);
    assert!(handle.retired.pop().is_ok());
    assert_eq!(source.engine.roster.hand_back(&mut source.engine.outbox), 1);
    assert_eq!(source.engine.roster.retiring.len(), waiting - 1);
}

#[test]
fn what_a_publisher_delivers_reaches_the_callback_and_comes_back() {
    let (mut source, handle) = source_setup(CHANNELS);
    let (mut bus, bus_handle) = bus_setup(CHANNELS);
    let mut publisher = SourcePublisher::new(handle);
    let mut bus_publisher = BusPublisher::new(bus_handle);
    let route_id = RouteId::new();
    let (feed, draw) = new_link(route_id)
        .into_halves(
            publisher.next_generation(),
            bus_publisher.next_generation(),
            (scalar(1.0), scalar(1.0)),
        )
        .unwrap_or_else(|error| panic!("{}", error.message()));
    assert!(publisher.add_feed(route_id, CHANNELS, feed).is_ok());
    assert!(bus_publisher.add_draw(route_id, draw).is_ok());
    assert_eq!(source.engine.inbox.slots(), 1);
    assert_eq!(bus.engine.inbox.slots(), 1);
    let generation = source.engine.begin_block();
    assert_eq!(generation, publisher.generation);
    source.engine.end_block(generation);
    assert_eq!(publisher.handle.plan_slot.completed(), generation);
    assert_eq!(source.engine.roster.active[0].route_id, route_id);
    let generation = bus.engine.begin_block();
    bus.engine.end_block(generation);
    assert_eq!(bus.engine.roster.active[0].route_id, route_id);

    publisher.remove_feed(route_id);
    bus_publisher.remove_draw(route_id);
    let generation = source.engine.begin_block();
    source.engine.end_block(generation);
    let generation = bus.engine.begin_block();
    bus.engine.end_block(generation);
    assert_eq!(publisher.handle.retired.slots(), 1);
    assert_eq!(bus_publisher.handle.retired.slots(), 1);
    publisher.collect_garbage();
    bus_publisher.collect_garbage();
    assert_eq!(publisher.handle.retired.slots(), 0);
    assert_eq!(bus_publisher.handle.retired.slots(), 0);
    assert!(publisher.handle.reclaimer.retired.is_empty());
    assert!(bus_publisher.handle.reclaimer.retired.is_empty());
}

#[test]
fn frames_come_out_as_they_went_in() {
    let (mut producer, mut consumer) = rtrb::RingBuffer::<u32>::new(5);
    assert!(write_frame(&mut producer, &vec![1, 2]));
    assert!(write_frame(&mut producer, &vec![3, 4]));
    assert!(!write_frame(&mut producer, &vec![5, 6]), "a frame goes in whole or not at all");
    assert_eq!(frames_ready(&mut consumer, 2), 2);
    let mut frame = vec![Some(Scalar::one())];
    read_frame(&mut consumer, 2, &mut frame);
    let pattern = |bits: u32| Some(Scalar::from_bits(bits));
    assert_eq!(frame, vec![pattern(1), pattern(2)]);
    read_frame(&mut consumer, 3, &mut frame);
    assert_eq!(frame, vec![pattern(3), pattern(4), None]);
    assert_eq!(frames_ready(&mut consumer, 2), 0);
}

#[test]
fn balance_takes_from_one_side_only() {
    let gains = |balance: f32| {
        let (left, right) = linear_balance_gains(scalar(balance), scalar(1.0 - balance.abs()));
        (number(left), number(right))
    };
    assert_eq!(gains(0.0), (1.0, 1.0));
    assert_eq!(gains(-0.0), (1.0, 1.0));
    assert_eq!(gains(0.25), (0.75, 1.0));
    assert_eq!(gains(-0.25), (1.0, 0.75));
    assert_eq!(gains(1.0), (0.0, 1.0));
    assert_eq!(gains(-1.0), (1.0, 0.0));
}

#[test]
fn saturation_is_bounded_and_odd() {
    for sample in [0.1f32, 0.5, 0.8, 0.95, 1.0, 1.5, 2.0, 40.0, f32::MAX] {
        let up = saturate(sample);
        assert!(up > 0.0 && up <= 1.0, "{sample} gives {up}");
        assert_eq!(saturate(-sample), -up);
    }
    assert_eq!(saturate(0.5), 0.5);
    assert_eq!(saturate(f32::INFINITY), 0.0);
    assert_eq!(saturate(f32::NAN), 0.0);
}

fn publishers() -> (Source, SourcePublisher, Bus, BusPublisher) {
    let (source, handle) = source_setup(CHANNELS);
    let (bus, bus_handle) = bus_setup(CHANNELS);
    (source, SourcePublisher::new(handle), bus, BusPublisher::new(bus_handle))
}

fn ring_between(source: &mut SourcePublisher, bus: &mut BusPublisher) -> (RouteId, RingOutcome) {
    let route_id = RouteId::new();
    let unity = (scalar(1.0), scalar(1.0));
    let outcome = link_publishers(source, bus, route_id, CHANNELS, QUANTUM, RATE, unity);
    (route_id, outcome)
}

#[test]
fn a_linked_route_carries_what_its_source_writes() {
    let (mut source, mut publisher, mut bus, mut bus_publisher) = publishers();
    let (route_id, outcome) = ring_between(&mut publisher, &mut bus_publisher);
    assert!(matches!(outcome, RingOutcome::Linked));
    assert_eq!(publisher.feeds[0].route_id, route_id);
    assert_eq!(bus_publisher.routes, vec![route_id]);
    assert_eq!(source.engine.begin_block(), 1);
    assert_eq!(bus.engine.begin_block(), 1);
    for at in 0..40u32 {
        assert!(source.engine.feed_frame(0, &vec![at, 1_000 + at]));
    }
    for at in 0..40u32 {
        bus.engine.draw_frame(0);
        let frame = &bus.engine.roster.active[0].half.frame;
        let sent = [at, 1_000 + at].map(|bits| Some(Scalar::from_bits(bits)));
        assert_eq!(frame[..], sent, "in order, and through this ring");
    }
    bus.engine.draw_frame(0);
    assert_eq!(bus.engine.roster.active[0].half.frame[..], [None, None]);
}

#[test]
fn every_route_has_its_own_ring() {
    let (mut source, mut publisher, mut bus, mut bus_publisher) = publishers();
    let (first, _) = ring_between(&mut publisher, &mut bus_publisher);
    let (second, _) = ring_between(&mut publisher, &mut bus_publisher);
    source.engine.begin_block();
    bus.engine.begin_block();
    for (feed, active) in [first, second].iter().zip([5u32, 6]) {
        let at = source.engine.roster.active.iter().position(|half| half.route_id == *feed);
        assert!(source.engine.feed_frame(at.expect("in use"), &vec![active, active]));
    }
    for (draw, active) in [first, second].iter().zip([5u32, 6]) {
        let at = bus.engine.roster.active.iter().position(|half| half.route_id == *draw);
        let at = at.expect("in use");
        bus.engine.draw_frame(at);
        let frame = &bus.engine.roster.active[at].half.frame;
        assert_eq!(frame[0], Some(Scalar::from_bits(active)));
    }
}

#[test]
fn a_link_that_cannot_be_made_leaves_the_publishers_alone() {
    let (_source, mut publisher, _bus, mut bus_publisher) = publishers();
    let unity = (scalar(1.0), scalar(1.0));
    let mut link = |channels, rate, balance| {
        link_publishers(
            &mut publisher,
            &mut bus_publisher,
            RouteId::new(),
            channels,
            QUANTUM,
            rate,
            balance,
        )
    };
    assert!(matches!(
        link(0, RATE, unity),
        RingOutcome::RingFailed(DspError::InvalidChannelCount(0))
    ));
    assert!(matches!(
        link(2, 0, unity),
        RingOutcome::RingFailed(DspError::InvalidSampleRate(0))
    ));
    assert!(matches!(
        link(2, RATE, (scalar(1.0), scalar(f32::NAN))),
        RingOutcome::RingFailed(DspError::InvalidParameter("smoother value"))
    ));
    assert_eq!((publisher.generation, bus_publisher.generation), (0, 0));
    assert!(!publisher.has_routes() && !bus_publisher.has_routes());
}

#[test]
fn a_full_inbox_refuses_a_link() {
    let (mut source, mut publisher, _bus, mut bus_publisher) = publishers();
    for _ in 0..INBOX_CAPACITY {
        let (_, outcome) = ring_between(&mut publisher, &mut bus_publisher);
        assert!(matches!(outcome, RingOutcome::Linked));
    }
    let generation = publisher.generation;
    let (_, outcome) = ring_between(&mut publisher, &mut bus_publisher);
    assert!(matches!(outcome, RingOutcome::FeedRefused));
    assert_eq!(publisher.generation, generation + 2);
    assert_eq!(bus_publisher.generation, INBOX_CAPACITY as u64, "the bus is not asked");
    assert_eq!(publisher.feeds.len(), INBOX_CAPACITY);

    source.engine.begin_block();
    let (route_id, outcome) = ring_between(&mut publisher, &mut bus_publisher);
    assert!(matches!(outcome, RingOutcome::DrawRefused));
    assert!(publisher.feeds.iter().any(|feed| feed.route_id == route_id));
    assert!(!bus_publisher.routes.contains(&route_id));
}

#[test]
fn a_reported_generation_is_the_one_that_was_completed() {
    let (source, mut handle) = source_setup(CHANNELS);
    for generation in 1..=3 {
        let old = handle.plan_slot.publish(SourcePlan { generation, feeds: Vec::new() });
        handle.reclaimer.retire(old);
    }
    source.engine.end_block(2);
    assert_eq!(handle.plan_slot.completed(), 2);
    handle.reclaimer.collect(&handle.plan_slot);
    let kept: Vec<u64> = handle.reclaimer.retired.iter().map(|plan| plan.generation).collect();
    assert_eq!(kept, vec![2], "only what is older than the completed generation goes");
}

#[test]
fn a_block_is_saturated_and_shaped_within_full_scale() {
    let sum = [3.0f32, -0.25, f32::NAN, f32::INFINITY, -7.5, 0.5];
    let bent: Vec<Scalar> = sum.iter().map(|sample| scalar(bend(*sample))).collect();
    let mut block: Vec<Scalar> = sum.iter().map(|sample| scalar(*sample)).collect();
    saturate_block(&mut block, &bent);
    let bounded: Vec<f32> = block.iter().map(|sample| number(*sample)).collect();
    assert_eq!(bounded[1..4], [-0.25, 0.0, 0.0]);
    assert_eq!(bounded[5], 0.5);
    assert!(bounded.iter().all(|sample| sample.abs() <= 1.0));

    let (mut bus, _handle) = bus_setup(CHANNELS);
    bus.engine.switch_mode(ChannelMode::Swap, scalar(0.5));
    let blended = vec![scalar(0.125); 6];
    let mut fading = block.clone();
    bus.engine.shape_block(&mut fading, &Vec::new(), &blended);
    assert_eq!(fading, blended, "while the mode changes");
    bus.engine.mode_fade = None;
    let means = vec![scalar(0.0); 3];
    bus.engine.shape_block(&mut block, &means, &Vec::new());
    let swapped: Vec<f32> = block.iter().map(|sample| number(*sample)).collect();
    assert_eq!(swapped[0], -0.25);
    assert_eq!(swapped[4], 0.5);
    assert!(swapped.iter().all(|sample| sample.abs() <= 1.0));
}
