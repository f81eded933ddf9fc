use hexatune_dsp::engine::{Layers, MAX_TEXTURE_LAYERS};
use hexatune_dsp::pcm::LayerError;
use hexatune_dsp::sample_player::PlayerFrame;

#[test]
fn texture_requires_base() {
    let mut layers: Layers<f32> = Layers::new();
    let data = vec![0.5; 100];
    let result = layers.set_texture_layer(0, &data, 1);
    assert!(result.is_err(), "texture without base should fail");
    assert_eq!(result, Err(LayerError::BaseRequired));
}

#[test]
fn event_requires_base() {
    let mut layers: Layers<f32> = Layers::new();
    let data = vec![0.5; 100];
    let result = layers.set_event(0, &data, 1, 100, 200, true, false);
    assert!(result.is_err(), "event without base should fail");
    assert_eq!(result, Err(LayerError::BaseRequired));
}

#[test]
fn clear_base_also_clears_textures_and_events() {
    let mut layers: Layers<f32> = Layers::new();
    let data = vec![0.5; 100];
    layers.set_base_layer(&data, 1).unwrap();
    layers.set_texture_layer(0, &data, 1).unwrap();
    layers.set_event(0, &data, 1, 100, 200, true, false).unwrap();

    layers.clear_base_layer();
    assert!(!layers.has_base_layer());
    assert_eq!(layers.events().slot_count(), 0);
    assert_eq!(layers.texture_frame(0), PlayerFrame::Silence);
}

#[test]
fn texture_index_bounds_checked() {
    let mut layers: Layers<f32> = Layers::new();
    let data = vec![0.5; 100];
    layers.set_base_layer(&data, 1).unwrap();
    let result = layers.set_texture_layer(3, &data, 1);
    assert!(result.is_err());
    assert_eq!(result, Err(LayerError::IndexOutOfRange { index: 3, max: MAX_TEXTURE_LAYERS }));
}

#[test]
fn base_layer_frames() {
    let mut layers: Layers<f32> = Layers::new();
    assert_eq!(layers.base_frame(), PlayerFrame::Silence);
    layers.set_base_layer(&[0.25, 0.75], 2).unwrap();
    assert_eq!(layers.base_frame(), PlayerFrame::Direct { left: 0.25, right: 0.75 });
    assert_eq!(layers.set_base_layer(&[], 1), Err(LayerError::EmptyData));
    assert!(layers.has_base_layer());
}

#[test]
fn textures_play_and_clear() {
    let mut layers: Layers<f32> = Layers::new();
    layers.set_base_layer(&[0.0], 1).unwrap();
    layers.set_texture_layer(2, &[0.5, 0.6], 1).unwrap();
    assert_eq!(layers.texture_frame(2), PlayerFrame::Direct { left: 0.5, right: 0.5 });
    assert_eq!(layers.texture_frame(2), PlayerFrame::Direct { left: 0.6, right: 0.6 });
    assert_eq!(layers.texture_frame(1), PlayerFrame::Silence);
    layers.clear_texture_layer(2);
    layers.clear_texture_layer(7);
    assert_eq!(layers.texture_frame(2), PlayerFrame::Silence);
}

#[test]
fn events_through_layers() {
    let mut layers: Layers<f32> = Layers::new();
    layers.set_base_layer(&[0.0], 1).unwrap();
    let ms = layers.set_event(4, &[1.0, 2.0], 1, 0, 0, false, false).unwrap();
    assert_eq!(ms, Some(0));
    // The only registered event, in slot 4, is the one that plays.
    let t = layers.events_mut().poll_trigger().unwrap();
    assert_eq!(t.slot_index, 4);
    assert!(layers.events().is_playing());
    assert_eq!(layers.events_mut().next_frame(), Some((1.0, 1.0)));
    assert!(layers.clear_event(4).is_none());
    assert!(!layers.events().is_playing());
    layers.clear_all_layers();
    assert!(!layers.has_base_layer());
}
