use hippo_core::callback::DataCallback;
use hippo_core::playback::HippoPlayback;

fn playback(user_data: u64, paused: bool) -> HippoPlayback<u32> {
    HippoPlayback { plugin_user_data: user_data, plugin: 7, is_paused: paused }
}

#[test]
fn new_callback_is_silent_and_needs_decoding() {
    let cb: DataCallback<u32> = DataCallback::new(16);
    assert_eq!(cb.mix_len(), 16);
    assert!(cb.needs_decode());
    assert_eq!(cb.pending_len(), 0);
    assert!(cb.active_playback().is_none());
    assert!(cb.players().is_empty());
}

#[test]
fn fast_path_plays_pending_samples() {
    let mut cb: DataCallback<u32> = DataCallback::new(8);
    let mix = [1, 2, 3, 4, 5, 6, 7, 8];
    cb.begin_stream(6);
    assert!(!cb.needs_decode());
    let mut out = [0; 4];
    assert_eq!(cb.copy_buffered(&mix, &mut out), 4);
    assert_eq!(out, [1, 2, 3, 4]);
    assert_eq!(cb.pending_len(), 2);
}

#[test]
fn short_pending_then_refill() {
    let mut cb: DataCallback<u32> = DataCallback::new(8);
    let mut mix = [1, 2, 3, 4, 5, 6, 7, 8];
    cb.begin_stream(6);
    let mut out = [0; 4];
    cb.copy_buffered(&mix, &mut out);
    // second callback: 2 pending, 4 wanted
    let mut out = [0; 4];
    let written = cb.copy_buffered(&mix, &mut out);
    assert_eq!(written, 2);
    assert_eq!(out, [5, 6, 0, 0]);
    assert_eq!(cb.pending_len(), 0);
    // the decoder refills the buffer with 5 samples
    mix[..5].copy_from_slice(&[10, 11, 12, 13, 14]);
    let next = cb.copy_decoded(&mix, 5, &mut out, written);
    assert_eq!(next, 4);
    assert_eq!(out, [5, 6, 10, 11]);
    assert_eq!(cb.pending_len(), 3);
    // the next callback starts with the rest of the refill
    let mut out = [0; 3];
    assert_eq!(cb.copy_buffered(&mix, &mut out), 3);
    assert_eq!(out, [12, 13, 14]);
}

#[test]
fn small_refills_are_all_played() {
    let mut cb: DataCallback<u32> = DataCallback::new(4);
    let mut mix = [0u32; 4];
    assert!(cb.needs_decode());
    mix[..1].copy_from_slice(&[1]);
    cb.begin_stream(1);
    let mut out = [0; 6];
    let mut off = cb.copy_buffered(&mix, &mut out);
    assert_eq!(off, 1);
    let refills: [&[u32]; 3] = [&[2, 3], &[4], &[5, 6, 7, 8]];
    for refill in refills {
        mix[..refill.len()].copy_from_slice(refill);
        off = cb.copy_decoded(&mix, refill.len(), &mut out, off);
    }
    assert_eq!(off, 6);
    assert_eq!(out, [1, 2, 3, 4, 5, 6]);
    assert_eq!(cb.pending_len(), 2);
    let mut out = [0; 2];
    assert_eq!(cb.copy_buffered(&mix, &mut out), 2);
    assert_eq!(out, [7, 8]);
}

#[test]
fn empty_decode_makes_no_progress() {
    let mut cb: DataCallback<u32> = DataCallback::new(4);
    let mix = [0u32; 4];
    cb.begin_stream(0);
    let mut out = [9; 2];
    assert_eq!(cb.copy_buffered(&mix, &mut out), 0);
    assert_eq!(cb.copy_decoded(&mix, 0, &mut out, 0), 0);
    assert_eq!(out, [9, 9]);
}

#[test]
fn empty_output_takes_nothing() {
    let mut cb: DataCallback<u32> = DataCallback::new(4);
    let mix = [1u32, 2, 3, 4];
    cb.begin_stream(3);
    let mut out: [u32; 0] = [];
    assert_eq!(cb.copy_buffered(&mix, &mut out), 0);
    assert_eq!(cb.pending_len(), 3);
}

#[test]
fn only_one_playback_runs() {
    let mut cb: DataCallback<u32> = DataCallback::new(4);
    cb.install_playback(playback(1, false));
    cb.install_playback(playback(2, false));
    assert_eq!(cb.players().len(), 1);
    assert_eq!(cb.active_playback().map(|p| p.plugin_user_data), Some(2));
}

#[test]
fn paused_playback_is_not_active() {
    let mut cb: DataCallback<u32> = DataCallback::new(4);
    cb.install_playback(playback(1, true));
    assert!(cb.active_playback().is_none());
    cb.set_paused(false, false);
    assert_eq!(cb.active_playback().map(|p| p.plugin_user_data), Some(1));
}

#[test]
fn force_resumes_whatever_pause_says() {
    let mut cb: DataCallback<u32> = DataCallback::new(4);
    cb.install_playback(playback(1, false));
    cb.set_paused(true, false);
    assert!(cb.players()[0].is_paused);
    cb.set_paused(true, true);
    assert!(!cb.players()[0].is_paused);
}

#[test]
fn pausing_without_playback_changes_nothing() {
    let mut cb: DataCallback<u32> = DataCallback::new(4);
    cb.set_paused(true, false);
    assert!(cb.players().is_empty());
}

#[test]
fn clearing_keeps_the_position() {
    let mut cb: DataCallback<u32> = DataCallback::new(4);
    cb.begin_stream(3);
    cb.install_playback(playback(1, false));
    cb.clear_players();
    assert!(cb.players().is_empty());
    assert_eq!(cb.pending_len(), 3);
}
