use woodland::audio::{
    all_songs, all_sound_effects, get_song_file_name, get_sound_file_name, song_to_stop, Song, SoundEffect,
};

#[test]
fn song_file_names() {
    assert_eq!(get_song_file_name(Song::Title), "title");
    assert_eq!(get_song_file_name(Song::Playing), "playing");
    assert_eq!(all_songs(), vec![Song::Title, Song::Playing]);
}

#[test]
fn sound_file_names() {
    assert_eq!(get_sound_file_name(SoundEffect::Step1), "step1");
    assert_eq!(get_sound_file_name(SoundEffect::Step2), "step2");
    assert_eq!(get_sound_file_name(SoundEffect::BaseballBatSwing), "baseball_bat_swing");
    assert_eq!(get_sound_file_name(SoundEffect::UiCant), "ui_cant");
    assert_eq!(get_sound_file_name(SoundEffect::UiConfirm), "ui_confirm");
    assert_eq!(all_sound_effects().len(), 5);
}

#[test]
fn switching_songs_stops_the_previous_one() {
    assert_eq!(song_to_stop(Some(Song::Title), Song::Playing), Some(Song::Title));
    assert_eq!(song_to_stop(Some(Song::Playing), Song::Playing), None);
    assert_eq!(song_to_stop(None, Song::Title), None);
}
