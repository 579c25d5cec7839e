use orion::dsp::buffer::{AudioBuffer, ProcessConfig, ProcessContext, MAX_CHANNELS};
use orion::dsp::drift::{DriftCorrector, HOLD_LIMIT_MS};
use orion::dsp::eq::{
    soft_clip, BandCoefficients, Biquad, ChannelEq, EqCoefficients, EQ_MIN_DB, SOFT_CLIP_KNEE,
};
use orion::dsp::error::DspError;
use orion::dsp::meter::{sanitize, ChannelMeter};
use orion::dsp::mixer::{mix_route, validate_frames, MixRoute, MixTerm, Mixer};
use orion::dsp::processors::{
    balance_in_range, constant_power_pan_gains, linear_balance_gains, pan_mono_to_stereo,
    GainProcessor, ParameterSmoother, StereoBalanceProcessor,
};
use orion::scalar::Scalar;

fn scalar(value: f32) -> Scalar {
    Scalar::from_bits(value.to_bits())
}

fn number(value: Scalar) -> f32 {
    f32::from_bits(value.bits)
}

fn assert_close(actual: f32, expected: f32) {
    assert!(
        (actual - expected).abs() < 1.0e-6,
        "expected {expected}, got {actual}"
    );
}

fn config(channels: usize, max_frames: usize) -> ProcessConfig {
    ProcessConfig::new(48_000, max_frames, channels).unwrap()
}

fn planar(channels: &[&[f32]]) -> Vec<Vec<Scalar>> {
    channels
        .iter()
        .map(|channel| channel.iter().map(|sample| scalar(*sample)).collect())
        .collect()
}

fn buffer(channels: &[&[f32]]) -> AudioBuffer {
    AudioBuffer::new(planar(channels)).unwrap()
}

fn channel(buffer: &AudioBuffer, channel: usize) -> Vec<f32> {
    (0..buffer.frames())
        .map(|frame| number(buffer.sample(channel, frame)))
        .collect()
}

fn step_to(current: Scalar, target: f32, frames: usize) -> Scalar {
    if frames == 0 {
        return Scalar::zero();
    }
    scalar((target - number(current)) / frames as f32)
}

fn head_for(
    smoother: &mut ParameterSmoother,
    target: f32,
    frames: usize,
) -> Result<(), DspError> {
    let step = step_to(smoother.current(), target, frames);
    smoother.set_target(scalar(target), frames, step)
}

fn stepped(smoother: &ParameterSmoother) -> Scalar {
    scalar(number(smoother.current) + number(smoother.step))
}

fn next_value(smoother: &mut ParameterSmoother) -> f32 {
    let value = stepped(smoother);
    number(smoother.next_value(value))
}

fn set_gain(gain: &mut GainProcessor, target: f32, frames: usize) -> Result<(), DspError> {
    let step = step_to(gain.gain.current(), target, frames);
    gain.set_target_gain(scalar(target), frames, step)
}

fn set_muted(gain: &mut GainProcessor, muted: bool, frames: usize) {
    let step = step_to(gain.audible.current(), if muted { 0.0 } else { 1.0 }, frames);
    gain.set_muted(muted, frames, step).unwrap();
}

fn process_gain(
    gain: &mut GainProcessor,
    context: &ProcessContext,
    buffer: &mut AudioBuffer,
) -> Result<(), DspError> {
    let config = gain.check(context, buffer)?;
    for frame in 0..context.frames() {
        let (level, audible) = gain.next_gains(stepped(&gain.gain), stepped(&gain.audible));
        let factor = number(level) * number(audible);
        for channel in 0..config.channel_count() {
            let sample = number(buffer.sample(channel, frame));
            buffer.set_sample(channel, frame, scalar(sample * factor));
        }
    }
    Ok(())
}

fn balance_gains(balance: f32) -> (f32, f32) {
    let clamped = balance_in_range(scalar(balance));
    let remainder = scalar(1.0 - number(clamped).abs());
    let (left, right) = linear_balance_gains(clamped, remainder);
    (number(left), number(right))
}

fn set_balance(processor: &mut StereoBalanceProcessor, target: f32) {
    processor
        .set_target_balance(scalar(target), 0, Scalar::zero())
        .unwrap();
}

fn process_balance(
    processor: &mut StereoBalanceProcessor,
    context: &ProcessContext,
    buffer: &mut AudioBuffer,
) -> Result<(), DspError> {
    processor.check(context, buffer)?;
    for frame in 0..context.frames() {
        let value = stepped(&processor.balance);
        let balance = number(processor.next_balance(value));
        let (left, right) = balance_gains(balance);
        let first = number(buffer.sample(0, frame)) * left;
        let second = number(buffer.sample(1, frame)) * right;
        buffer.set_sample(0, frame, scalar(first));
        buffer.set_sample(1, frame, scalar(second));
    }
    Ok(())
}

fn pan_angle(pan: f32) -> (Scalar, Scalar) {
    let angle = (pan + 1.0) * std::f32::consts::FRAC_PI_4;
    (scalar(angle.cos()), scalar(angle.sin()))
}

fn pan_gains(pan: f32) -> Result<(f32, f32), DspError> {
    let (cosine, sine) = pan_angle(pan);
    constant_power_pan_gains(scalar(pan), cosine, sine)
        .map(|(left, right)| (number(left), number(right)))
}

fn pan_block(
    input: &[f32],
    left: &mut [f32],
    right: &mut [f32],
    pan: f32,
) -> Result<(), DspError> {
    let (cosine, sine) = pan_angle(pan);
    let (first, second) = pan_mono_to_stereo(
        input.len(),
        left.len(),
        right.len(),
        scalar(pan),
        cosine,
        sine,
    )?;
    for frame in 0..input.len() {
        left[frame] = input[frame] * number(first);
        right[frame] = input[frame] * number(second);
    }
    Ok(())
}

fn mix(
    mixer: &Mixer,
    context: &ProcessContext,
    routes: &Vec<MixRoute>,
    output: &mut AudioBuffer,
) -> Result<(), DspError> {
    mixer.begin(context, routes, output)?;
    for route in routes {
        let input = route.input();
        for channel in 0..output.channel_count() {
            let term = mix_route(input.channel_count(), output.channel_count(), channel);
            for frame in 0..context.frames() {
                let sample = match term {
                    MixTerm::Channel(from) => number(input.sample(from, frame)),
                    MixTerm::Mean => {
                        (number(input.sample(0, frame)) + number(input.sample(1, frame))) * 0.5
                    }
                };
                let sum = number(output.sample(channel, frame)) + sample * number(route.gain());
                output.set_sample(channel, frame, scalar(sum));
            }
        }
    }
    Ok(())
}

fn meter_block(meter: &mut ChannelMeter, samples: &[f32]) {
    let block: Vec<Scalar> = samples.iter().map(|sample| scalar(*sample)).collect();
    let mut squares = 0.0f64;
    for sample in &block {
        let value = f64::from(number(sanitize(*sample)));
        squares += value * value;
    }
    let rms = if block.is_empty() {
        0.0
    } else {
        (squares / block.len() as f64).sqrt() as f32
    };
    meter.process(&block, scalar(rms));
}

struct Drift {
    corrector: DriftCorrector,
    integral: f64,
    ratio: f64,
    frac: f64,
}

impl Drift {
    fn new(channels: usize, target: usize) -> Result<Self, DspError> {
        Ok(Drift {
            corrector: DriftCorrector::new(channels, target, 48_000)?,
            integral: 0.0,
            ratio: 1.0,
            frac: 0.0,
        })
    }

    fn process(
        &mut self,
        output: &mut [f32],
        channels: usize,
        buffered: usize,
        pull: &mut dyn FnMut() -> Option<f32>,
    ) {
        let error = buffered as f64 - self.corrector.target_frames as f64;
        self.integral = (self.integral + error).clamp(-512.0, 512.0);
        let adjust = (1.0e-6 * error + 2.0e-8 * self.integral).clamp(-0.002, 0.002);
        let step = (1.0 + adjust - self.ratio).clamp(-2.0e-5, 2.0e-5);
        self.ratio += step;
        for frame in 0..output.len() / channels {
            self.frac += self.ratio;
            while self.frac >= 1.0 {
                let samples: Vec<Option<Scalar>> =
                    (0..channels).map(|_| pull().map(scalar)).collect();
                self.corrector.pull_frame(&samples);
                self.frac -= 1.0;
            }
            let frac = self.frac as f32;
            for channel in 0..channels {
                let previous = number(self.corrector.previous[channel]);
                let current = number(self.corrector.current[channel]);
                output[frame * channels + channel] = previous + (current - previous) * frac;
            }
        }
    }
}

fn filter(biquad: &mut Biquad, sample: f32) -> f32 {
    let band = biquad.coefficients;
    let out = sample * number(band.b0) + number(biquad.z1);
    biquad.z1 = scalar(sample * number(band.b1) + number(biquad.z2) - number(band.a1) * out);
    biquad.z2 = scalar(sample * number(band.b2) - number(band.a2) * out);
    out
}

fn equalize(eq: &mut ChannelEq, sample: f32) -> f32 {
    let low = filter(&mut eq.low, sample);
    let mid = filter(&mut eq.mid, low);
    filter(&mut eq.high, mid)
}

#[test]
fn process_config_rejects_invalid_values() {
    assert_eq!(
        ProcessConfig::new(0, 64, 1),
        Err(DspError::InvalidSampleRate(0))
    );
    assert_eq!(
        ProcessConfig::new(48_000, 0, 1),
        Err(DspError::InvalidMaxBlockSize(0))
    );
    assert_eq!(
        ProcessConfig::new(48_000, 64, 0),
        Err(DspError::InvalidChannelCount(0))
    );
    assert_eq!(
        ProcessConfig::new(48_000, 64, 3),
        Err(DspError::InvalidChannelCount(3))
    );

    let valid = config(2, 128);
    assert_eq!(valid.sample_rate(), 48_000);
    assert_eq!(valid.max_block_size(), 128);
    assert_eq!(valid.channel_count(), 2);
}

#[test]
fn context_and_planar_buffer_are_validated() {
    let cfg = config(2, 4);
    assert_eq!(
        ProcessContext::new(cfg, 5, 0),
        Err(DspError::BlockTooLarge {
            frames: 5,
            max_frames: 4
        })
    );

    assert!(matches!(
        AudioBuffer::new(Vec::new()),
        Err(DspError::InvalidChannelCount(0))
    ));

    assert!(matches!(
        AudioBuffer::new(planar(&[&[0.0; 2], &[0.0; 3]])),
        Err(DspError::NonUniformBuffer {
            expected_frames: 2,
            channel: 1,
            actual_frames: 3
        })
    ));
}

#[test]
fn processor_rejects_unprepared_and_mismatched_blocks() {
    let cfg = config(1, 8);
    let context = ProcessContext::new(cfg, 2, 10).unwrap();
    let mut buffer = buffer(&[&[1.0; 2]]);
    let mut gain = GainProcessor::new(scalar(1.0)).unwrap();
    assert_eq!(
        process_gain(&mut gain, &context, &mut buffer),
        Err(DspError::NotPrepared)
    );

    gain.prepare(config(1, 4)).unwrap();
    assert_eq!(
        process_gain(&mut gain, &context, &mut buffer),
        Err(DspError::ConfigurationMismatch)
    );

    let cfg = config(1, 8);
    gain.prepare(cfg).unwrap();
    let context = ProcessContext::new(cfg, 1, 10).unwrap();
    assert_eq!(
        process_gain(&mut gain, &context, &mut buffer),
        Err(DspError::FrameCountMismatch {
            expected: 1,
            actual: 2
        })
    );
}

#[test]
fn smoother_ramps_by_frames_and_retargets_continuously() {
    let mut smoother = ParameterSmoother::new(scalar(0.0)).unwrap();
    head_for(&mut smoother, 1.0, 4).unwrap();
    assert_close(next_value(&mut smoother), 0.25);
    assert_close(next_value(&mut smoother), 0.5);

    head_for(&mut smoother, 0.0, 2).unwrap();
    assert_close(next_value(&mut smoother), 0.25);
    assert_close(next_value(&mut smoother), 0.0);
    assert!(!smoother.is_smoothing());
    assert_close(next_value(&mut smoother), 0.0);

    head_for(&mut smoother, 0.75, 0).unwrap();
    assert_close(number(smoother.current()), 0.75);
    assert_eq!(
        head_for(&mut smoother, f32::NAN, 3),
        Err(DspError::InvalidParameter("smoother target"))
    );
}

#[test]
fn gain_ramp_continues_across_blocks() {
    let cfg = config(1, 4);
    let mut gain = GainProcessor::new(scalar(0.0)).unwrap();
    gain.prepare(cfg).unwrap();
    set_gain(&mut gain, 1.0, 4).unwrap();

    let mut first = buffer(&[&[1.0; 2]]);
    process_gain(
        &mut gain,
        &ProcessContext::new(cfg, 2, 0).unwrap(),
        &mut first,
    )
    .unwrap();
    let mut second = buffer(&[&[1.0; 2]]);
    process_gain(
        &mut gain,
        &ProcessContext::new(cfg, 2, 2).unwrap(),
        &mut second,
    )
    .unwrap();

    assert_eq!(channel(&first, 0), [0.25, 0.5]);
    assert_eq!(channel(&second, 0), [0.75, 1.0]);
}

#[test]
fn mute_and_unmute_are_click_free_ramps() {
    let cfg = config(2, 8);
    let mut gain = GainProcessor::new(scalar(1.0)).unwrap();
    gain.prepare(cfg).unwrap();
    set_muted(&mut gain, true, 4);

    let mut stereo = buffer(&[&[1.0; 4], &[0.5; 4]]);
    process_gain(
        &mut gain,
        &ProcessContext::new(cfg, 4, 0).unwrap(),
        &mut stereo,
    )
    .unwrap();
    assert_eq!(channel(&stereo, 0), [0.75, 0.5, 0.25, 0.0]);
    assert_eq!(channel(&stereo, 1), [0.375, 0.25, 0.125, 0.0]);
    assert!(gain.is_muted());

    set_muted(&mut gain, false, 2);
    let mono_cfg = config(1, 8);
    gain.prepare(mono_cfg).unwrap();
    let mut mono = buffer(&[&[1.0; 2]]);
    process_gain(
        &mut gain,
        &ProcessContext::new(mono_cfg, 2, 4).unwrap(),
        &mut mono,
    )
    .unwrap();
    assert_eq!(channel(&mono, 0), [0.5, 1.0]);
}

#[test]
fn balance_only_attenuates_the_opposite_side() {
    assert!(StereoBalanceProcessor::new(scalar(1.01)).is_err());
    let mono_cfg = config(1, 4);
    let mut balance = StereoBalanceProcessor::new(scalar(0.0)).unwrap();
    assert_eq!(
        balance.prepare(mono_cfg),
        Err(DspError::ChannelCountMismatch {
            expected: 2,
            actual: 1
        })
    );

    let cfg = config(2, 4);
    balance.prepare(cfg).unwrap();
    set_balance(&mut balance, 1.0);
    let mut block = buffer(&[&[2.0, 2.0], &[3.0, 3.0]]);
    process_balance(
        &mut balance,
        &ProcessContext::new(cfg, 2, 0).unwrap(),
        &mut block,
    )
    .unwrap();
    assert_eq!(channel(&block, 0), [0.0, 0.0]);
    assert_eq!(channel(&block, 1), [3.0, 3.0]);

    set_balance(&mut balance, -1.0);
    let mut block = buffer(&[&[2.0], &[3.0]]);
    process_balance(
        &mut balance,
        &ProcessContext::new(cfg, 1, 2).unwrap(),
        &mut block,
    )
    .unwrap();
    assert_eq!(channel(&block, 0), [2.0]);
    assert_eq!(channel(&block, 1), [0.0]);
}

#[test]
fn linear_balance_law_attenuates_only_the_opposite_side() {
    assert_eq!(balance_gains(0.0), (1.0, 1.0));
    assert_eq!(balance_gains(-1.0), (1.0, 0.0));
    assert_eq!(balance_gains(1.0), (0.0, 1.0));
    assert_eq!(balance_gains(0.5), (0.5, 1.0));
    assert_eq!(balance_gains(-0.25), (1.0, 0.75));
    assert_eq!(balance_gains(2.0), (0.0, 1.0));
    assert_eq!(balance_gains(-3.0), (1.0, 0.0));
}

#[test]
fn constant_power_pan_has_correct_center_and_extremes() {
    let (left, right) = pan_gains(0.0).unwrap();
    assert_close(left, core::f32::consts::FRAC_1_SQRT_2);
    assert_close(right, core::f32::consts::FRAC_1_SQRT_2);

    let input = [1.0, -0.5];
    let mut left = [9.0; 2];
    let mut right = [9.0; 2];
    pan_block(&input, &mut left, &mut right, -1.0).unwrap();
    assert_eq!(left, input);
    assert_close(right[0], 0.0);
    assert_close(right[1], 0.0);

    pan_block(&input, &mut left, &mut right, 1.0).unwrap();
    assert_close(left[0], 0.0);
    assert_close(left[1], 0.0);
    assert_eq!(right, input);
    assert!(pan_block(&input, &mut left, &mut right, f32::INFINITY).is_err());
}

#[test]
fn mixer_sums_routes_and_fans_mono_out_to_stereo() {
    let cfg = config(2, 4);
    let context = ProcessContext::new(cfg, 2, 0).unwrap();
    let routes = vec![
        MixRoute::new(buffer(&[&[1.0, 2.0]]), scalar(1.0)).unwrap(),
        MixRoute::new(buffer(&[&[4.0, 6.0]]), scalar(0.5)).unwrap(),
    ];
    let mut output = buffer(&[&[99.0; 2], &[99.0; 2]]);
    let mut mixer = Mixer::new();
    mixer.prepare(cfg);
    mix(&mixer, &context, &routes, &mut output).unwrap();
    assert_eq!(channel(&output, 0), [3.0, 5.0]);
    assert_eq!(channel(&output, 1), [3.0, 5.0]);
}

#[test]
fn mixer_handles_all_channel_mappings() {
    let mono_cfg = config(1, 2);
    let mono_context = ProcessContext::new(mono_cfg, 2, 0).unwrap();
    let mono_routes = vec![MixRoute::new(buffer(&[&[2.0, -2.0]]), scalar(0.25)).unwrap()];
    let mut mono_output = buffer(&[&[0.0; 2]]);
    let mut mixer = Mixer::new();
    mixer.prepare(mono_cfg);
    mix(&mixer, &mono_context, &mono_routes, &mut mono_output).unwrap();
    assert_eq!(channel(&mono_output, 0), [0.5, -0.5]);

    let left = [1.0, 3.0];
    let right = [3.0, -1.0];
    let stereo_routes = vec![MixRoute::new(buffer(&[&left, &right]), scalar(1.0)).unwrap()];
    let mut downmix = buffer(&[&[0.0; 2]]);
    let mut mixer = Mixer::new();
    mixer.prepare(mono_cfg);
    mix(&mixer, &mono_context, &stereo_routes, &mut downmix).unwrap();
    assert_eq!(channel(&downmix, 0), [2.0, 1.0]);

    let stereo_cfg = config(2, 2);
    let stereo_context = ProcessContext::new(stereo_cfg, 2, 0).unwrap();
    let mut stereo = buffer(&[&[0.0; 2], &[0.0; 2]]);
    let mut mixer = Mixer::new();
    mixer.prepare(stereo_cfg);
    mix(&mixer, &stereo_context, &stereo_routes, &mut stereo).unwrap();
    assert_eq!(channel(&stereo, 0), left);
    assert_eq!(channel(&stereo, 1), right);
}

#[test]
fn mixer_validates_before_modifying_output() {
    let cfg = config(1, 4);
    let context = ProcessContext::new(cfg, 2, 0).unwrap();
    let routes = vec![MixRoute::new(buffer(&[&[1.0; 3]]), scalar(1.0)).unwrap()];
    let mut output = buffer(&[&[7.0; 2]]);
    let mut mixer = Mixer::new();
    mixer.prepare(cfg);
    assert_eq!(
        mix(&mixer, &context, &routes, &mut output),
        Err(DspError::FrameCountMismatch {
            expected: 2,
            actual: 3
        })
    );
    assert_eq!(channel(&output, 0), [7.0; 2]);
}

#[test]
fn mixer_refuses_what_it_was_not_prepared_for() {
    let cfg = config(1, 4);
    let context = ProcessContext::new(cfg, 2, 0).unwrap();
    let mut output = buffer(&[&[7.0; 2]]);
    let mixer = Mixer::new();
    assert_eq!(
        mix(&mixer, &context, &Vec::new(), &mut output),
        Err(DspError::NotPrepared)
    );
    assert_eq!(
        validate_frames(&context, 3),
        Err(DspError::FrameCountMismatch { expected: 2, actual: 3 })
    );
    assert!(matches!(
        MixRoute::new(buffer(&[&[1.0]]), scalar(f32::INFINITY)),
        Err(DspError::InvalidParameter("route gain"))
    ));
}

#[test]
fn meter_reports_peak_rms_hold_and_clipping() {
    let mut meter = ChannelMeter::new(4);
    meter_block(&mut meter, &[0.5, -1.0, 0.25, -0.25]);
    assert_close(number(meter.peak()), 1.0);
    assert_close(number(meter.rms()), (1.375_f32 / 4.0).sqrt());
    assert_close(number(meter.held_peak()), 1.0);
    assert_eq!(meter.hold_remaining_frames(), 4);
    assert!(meter.clip_latched());
    assert_eq!(meter.clip_count(), 1);

    meter.clear_clip_latch();
    meter_block(&mut meter, &[0.1, 0.2, 0.1]);
    assert_close(number(meter.held_peak()), 1.0);
    assert_eq!(meter.hold_remaining_frames(), 1);
    assert!(!meter.clip_latched());

    meter_block(&mut meter, &[0.3]);
    assert_close(number(meter.held_peak()), 0.3);
    assert_eq!(meter.hold_remaining_frames(), 0);
    assert_eq!(meter.clip_count(), 1);
}

#[test]
fn meter_sanitizes_nonfinite_samples_and_saturates_clip_count() {
    let mut meter = ChannelMeter::new(0);
    meter_block(&mut meter, &[f32::NAN, f32::INFINITY, f32::NEG_INFINITY, 2.0]);
    assert!(number(meter.peak()).is_finite());
    assert!(number(meter.rms()).is_finite());
    assert_close(number(meter.peak()), 2.0);
    assert_close(number(meter.rms()), (6.0_f32 / 4.0).sqrt());
    assert_eq!(meter.clip_count(), 3);
    assert!(meter.clip_latched());

    meter.reset();
    assert_eq!(number(meter.peak()), 0.0);
    assert_eq!(number(meter.rms()), 0.0);
    assert_eq!(number(meter.held_peak()), 0.0);
    assert_eq!(meter.clip_count(), 0);
    assert!(!meter.clip_latched());

    meter.clip_count = u64::MAX;
    meter_block(&mut meter, &[1.0]);
    assert_eq!(meter.clip_count(), u64::MAX);
}

#[test]
fn drift_corrector_passes_audio_through_at_nominal_rate() {
    let mut corrector = Drift::new(2, 512).expect("stereo corrector");
    let input: Vec<f32> = (0..4_096)
        .map(|frame| (frame as f32 * 0.05).sin() * 0.5)
        .collect();
    let mut read = 0usize;
    let mut output = vec![0.0_f32; 2 * 1_024];

    corrector.process(&mut output, 2, 512, &mut || {
        let sample = input.get(read).copied();
        read += 1;
        sample
    });

    assert!(
        output.iter().all(|sample| sample.is_finite()),
        "corrector produced non-finite samples"
    );
    let peak = output.iter().fold(0.0_f32, |peak, s| peak.max(s.abs()));
    assert!(peak > 0.1, "input signal must reach the output");
    assert_eq!(&output[2..6], &input[0..4], "one frame late and otherwise unchanged");
}

#[test]
fn drift_corrector_ratio_tracks_occupancy_direction() {
    let mut corrector = Drift::new(2, 512).expect("corrector");
    let mut output = vec![0.0_f32; 2 * 128];
    let mut pull = || Some(0.1_f32);

    for _ in 0..40 {
        corrector.process(&mut output, 2, 4_096, &mut pull);
    }
    assert!(
        corrector.ratio > 1.0,
        "occupancy above target must speed up consumption: ratio {}",
        corrector.ratio
    );

    for _ in 0..400 {
        corrector.process(&mut output, 2, 0, &mut pull);
    }
    assert!(
        corrector.ratio < 1.0,
        "occupancy below target must slow consumption: ratio {}",
        corrector.ratio
    );
    assert!(corrector.ratio >= 1.0 - 0.002 - 1.0e-9);
}

#[test]
fn drift_corrector_holds_last_frame_on_underrun_without_clicks() {
    let mut corrector = Drift::new(2, 512).expect("corrector");
    let mut output = vec![0.0_f32; 2 * 256];
    let mut provided = true;
    corrector.process(&mut output, 2, 0, &mut || {
        if provided {
            provided = false;
            Some(0.75_f32)
        } else {
            None
        }
    });
    assert!(
        output.iter().all(|sample| sample.is_finite()),
        "underrun must stay finite"
    );
    assert!(
        output.iter().any(|sample| sample.abs() > 0.1),
        "held frame must appear in output"
    );
}

#[test]
fn drift_corrector_supports_multichannel_buses() {
    let mut corrector = Drift::new(4, 512).expect("4-channel corrector");
    let mut read = 0usize;
    let input: Vec<f32> = (0..2_048).map(|i| (i as f32 * 0.01).sin()).collect();
    let mut output = vec![0.0_f32; 4 * 256];

    corrector.process(&mut output, 4, 512, &mut || {
        let sample = input.get(read).copied();
        read += 1;
        sample
    });

    assert!(output.iter().all(|sample| sample.is_finite()));
    assert!(
        output.iter().any(|sample| sample.abs() > 0.01),
        "signal must reach every channel"
    );
    assert!(Drift::new(0, 512).is_err());
    assert!(Drift::new(MAX_CHANNELS + 1, 512).is_err());
}

#[test]
fn drift_corrector_converges_under_simulated_clock_drift() {
    let target = 512usize;
    let mut corrector = Drift::new(2, target).expect("corrector");
    let mut ring: std::collections::VecDeque<f32> = std::collections::VecDeque::new();
    let mut phase = 0.0_f32;
    let mut output = vec![0.0_f32; 2 * 256];

    for callback in 0..400 {
        for _ in 0..(256 + usize::from(callback % 4 == 0)) {
            let sample = phase.sin() * 0.25;
            phase += 0.05;
            ring.push_back(sample);
            ring.push_back(sample);
        }
        let buffered_frames = ring.len() / 2;
        corrector.process(&mut output, 2, buffered_frames, &mut || ring.pop_front());
        assert!(
            output.iter().all(|sample| sample.is_finite()),
            "non-finite sample under drift"
        );
    }

    let final_buffered = ring.len() / 2;
    assert!(
        final_buffered < target * 4,
        "drift must not accumulate unbounded: buffered {final_buffered}"
    );
    assert!(
        corrector.ratio != 1.0,
        "controller should have moved off the nominal ratio"
    );
}

#[test]
fn a_held_frame_is_let_go_after_its_time() {
    let mut corrector = DriftCorrector::new(1, 16, 2_000).unwrap();
    assert_eq!(HOLD_LIMIT_MS, 25);
    assert_eq!(corrector.hold_limit_frames, 50);
    corrector.pull_frame(&vec![Some(scalar(0.5))]);
    for _ in 0..49 {
        corrector.pull_frame(&vec![None]);
        assert_eq!(number(corrector.current[0]), 0.5);
    }
    corrector.pull_frame(&vec![None]);
    assert_eq!(number(corrector.current[0]), 0.0);
    assert_eq!(number(corrector.previous[0]), 0.5);
    corrector.pull_frame(&vec![Some(scalar(0.25))]);
    assert_eq!(corrector.starved_frames, 0);
    corrector.set_target_frames(32);
    assert_eq!(corrector.target_frames, 32);
    assert_eq!(DriftCorrector::new(1, 16, 999).unwrap().hold_limit_frames, 1);
    assert!(matches!(
        DriftCorrector::new(1, 16, 0),
        Err(DspError::InvalidSampleRate(0))
    ));
}

#[test]
fn eq_defaults_are_identity_not_silence() {
    let mut bare = ChannelEq::default();
    assert_eq!(equalize(&mut bare, 0.5), 0.5);
    assert_eq!(equalize(&mut bare, -0.25), -0.25);

    let coefficients = EqCoefficients::default();
    let mut eq = ChannelEq::default();
    eq.set_coefficients(&coefficients);
    let mut sum = 0.0_f32;
    let mut count = 0usize;
    let rate = 48_000usize;
    for frame in 0..rate {
        let phase = 2.0 * std::f32::consts::PI * 1_000.0 * frame as f32 / rate as f32;
        let out = equalize(&mut eq, phase.sin());
        if frame > rate / 2 {
            sum += out * out;
            count += 1;
        }
    }
    let rms = (sum / count as f32).sqrt();
    assert!(
        (rms - 0.5_f32.sqrt()).abs() < 0.01,
        "default coefficients must pass audio: rms {rms}"
    );
}

#[test]
fn retuning_keeps_the_state_and_setting_clears_it() {
    let band = BandCoefficients {
        b0: scalar(0.5),
        b1: scalar(0.25),
        b2: scalar(0.0),
        a1: scalar(0.0),
        a2: scalar(0.0),
    };
    let mut biquad = Biquad::default();
    biquad.z1 = scalar(0.125);
    biquad.retune(band);
    assert_eq!(number(biquad.z1), 0.125);
    assert_eq!(filter(&mut biquad, 1.0), 0.625);
    biquad.set_coefficients(band);
    assert_eq!(number(biquad.z1), 0.0);
    let set = EqCoefficients { low: band, mid: band, high: band };
    let mut eq = ChannelEq::default();
    eq.high.z2 = scalar(0.5);
    eq.retune(&set);
    assert_eq!(number(eq.high.z2), 0.5);
    assert_eq!(number(eq.low.coefficients.b0), 0.5);
    assert_eq!(f32::from_bits(EQ_MIN_DB), -12.0);
}

#[test]
fn saturation_leaves_samples_below_the_knee_alone() {
    let knee = f32::from_bits(SOFT_CLIP_KNEE);
    assert!((knee - 10f32.powf(-1.0 / 20.0)).abs() < 1.0e-6);
    assert_eq!(number(soft_clip(scalar(-0.5), scalar(9.0))), -0.5);
    assert_eq!(number(soft_clip(scalar(2.0), scalar(0.95))), 0.95);
    assert_eq!(number(soft_clip(scalar(f32::NAN), scalar(9.0))), 0.0);
    assert_eq!(number(soft_clip(scalar(f32::INFINITY), scalar(9.0))), 0.0);
}

#[test]
fn ramps_land_on_their_target() {
    let mut smoother = ParameterSmoother::new(scalar(0.1)).unwrap();
    head_for(&mut smoother, 0.7, 3).unwrap();
    for left in [2usize, 1, 0] {
        next_value(&mut smoother);
        assert_eq!(smoother.remaining_frames(), left);
    }
    assert_eq!(number(smoother.current()), 0.7);
    assert_eq!(number(smoother.target()), 0.7);
    smoother.reset(scalar(0.2)).unwrap();
    assert_eq!(number(smoother.current()), 0.2);
    assert_eq!(
        smoother.reset(scalar(f32::NEG_INFINITY)),
        Err(DspError::InvalidParameter("smoother reset value"))
    );
    assert_eq!(
        ParameterSmoother::new(scalar(f32::NAN)).err(),
        Some(DspError::InvalidParameter("smoother value"))
    );
    assert!(matches!(
        GainProcessor::new(scalar(-0.5)),
        Err(DspError::InvalidParameter("gain"))
    ));
    head_for(&mut smoother, 1.0, 8).unwrap();
    smoother.settle_at_target();
    assert_eq!(number(smoother.current()), 1.0);
    assert!(!smoother.is_smoothing());
}

#[test]
fn errors_say_what_is_wrong() {
    assert_eq!(
        DspError::NotPrepared.message(),
        "processor has not been prepared"
    );
    assert_eq!(
        DspError::BlockTooLarge { frames: 5, max_frames: 4 }.message(),
        "block has 5 frames, maximum is 4"
    );
    assert_eq!(
        DspError::NonUniformBuffer { expected_frames: 2, channel: 1, actual_frames: 3 }.message(),
        "channel 1 has 3 frames, expected 2"
    );
    assert_eq!(
        DspError::InvalidParameter("gain").message(),
        "invalid parameter: gain"
    );
}

#[test]
fn clip_counts_are_reset_apart_from_the_latch() {
    let mut meter = ChannelMeter::new(0);
    meter.process(&vec![scalar(1.5), scalar(-1.0), scalar(0.5)], scalar(1.0));
    assert_eq!(meter.clip_count(), 2);
    meter.reset_clip_count();
    assert_eq!(meter.clip_count(), 0);
    assert!(meter.clip_latched());
}

#[test]
fn gain_targets_are_told_before_they_are_reached() {
    let mut gain = GainProcessor::new(scalar(0.25)).unwrap();
    assert_eq!(gain.target_gain(), scalar(0.25));
    gain.set_target_gain(scalar(1.0), 4, scalar(0.1875)).unwrap();
    assert_eq!(gain.target_gain(), scalar(1.0));
    assert!(gain.set_target_gain(scalar(-1.0), 4, scalar(0.0)).is_err());
    assert_eq!(gain.target_gain(), scalar(1.0));
    assert_eq!(gain.latency_frames(), 0);
}

#[test]
fn pulled_frames_are_played_one_frame_late() {
    let mut corrector = DriftCorrector::new(2, 16, 48_000).unwrap();
    corrector.pull_frame(&vec![Some(scalar(0.5)), Some(scalar(-0.5))]);
    assert_eq!(number(corrector.previous[0]), 0.0);
    assert_eq!(number(corrector.current[1]), -0.5);
    corrector.pull_frame(&vec![Some(scalar(0.25)), None]);
    assert_eq!(number(corrector.previous[0]), 0.5);
    assert_eq!(number(corrector.previous[1]), -0.5);
    assert_eq!(number(corrector.current[0]), 0.25);
    assert_eq!(number(corrector.current[1]), -0.5, "a missing sample is held");
}
