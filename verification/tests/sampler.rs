use polysynth::sampler::{Sample, Sampler};

#[test]
fn sample_keeps_what_it_was_made_of() {
    let data = [0.5f32, -0.5];
    let sample = Sample::new(&data, 44100, 2);
    assert_eq!(sample.buffer, &data[..]);
    assert_eq!(sample.sample_rate, 44100);
    assert_eq!(sample.channels, 2);
}

#[test]
fn looping_sampler_starts_over() {
    let data = [1.0f32, 2.0, 3.0];
    let sample = Sample::new(&data, 44100, 1);
    let mut sampler = Sampler::new(&sample);
    assert!(sampler.is_looping());
    let played: Vec<Option<f32>> = (0..7).map(|_| sampler.next()).collect();
    assert_eq!(
        played,
        vec![Some(1.0), Some(2.0), Some(3.0), Some(1.0), Some(2.0), Some(3.0), Some(1.0)]
    );
}

#[test]
fn one_shot_sampler_falls_silent() {
    let data = [1u8, 2, 3];
    let sample = Sample::new(&data, 8000, 1);
    let mut sampler = Sampler::new(&sample);
    sampler.set_looping(false);
    assert!(!sampler.is_looping());
    let played: Vec<Option<u8>> = (0..6).map(|_| sampler.next()).collect();
    assert_eq!(played, vec![Some(1), Some(2), Some(3), None, None, None]);
}

#[test]
fn sampler_knows_when_it_can_play() {
    let nothing: [u8; 0] = [];
    let sample = Sample::new(&nothing, 8000, 1);
    let mut sampler = Sampler::new(&sample);
    assert!(!sampler.is_ready());
    sampler.set_looping(false);
    assert!(sampler.is_ready());
    assert_eq!(sampler.next(), None);

    let data = [9u8];
    let sample = Sample::new(&data, 8000, 1);
    let mut sampler = Sampler::new(&sample);
    sampler.set_looping(false);
    assert_eq!(sampler.next(), Some(9));
    assert_eq!(sampler.next(), None);
    sampler.set_looping(true);
    assert!(!sampler.is_ready());
}
