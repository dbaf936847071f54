use vstd::prelude::*;

verus! {

#[derive(Clone, Copy, Debug, PartialEq, Eq, Hash, Structural)]
pub enum Song {
    Title,
    Playing,
}

/// Base name of the music file of a song.
pub open spec fn song_file_name(song: Song) -> Seq<char> {
    match song {
        Song::Title => "title"@,
        Song::Playing => "playing"@,
    }
}

pub fn get_song_file_name(song: Song) -> (r: &'static str)
    ensures
        r@ == song_file_name(song),
{
    match song {
        Song::Title => "title",
        Song::Playing => "playing",
    }
}

#[derive(Clone, Copy, Debug, PartialEq, Eq, Hash, Structural)]
pub enum SoundEffect {
    Step1,
    Step2,
    BaseballBatSwing,
    UiCant,
    UiConfirm,
}

/// Base name of the sound file of an effect.
pub open spec fn sound_file_name(effect: SoundEffect) -> Seq<char> {
    match effect {
        SoundEffect::Step1 => "step1"@,
        SoundEffect::Step2 => "step2"@,
        SoundEffect::BaseballBatSwing => "baseball_bat_swing"@,
        SoundEffect::UiCant => "ui_cant"@,
        SoundEffect::UiConfirm => "ui_confirm"@,
    }
}

pub fn get_sound_file_name(sound_effect: SoundEffect) -> (r: &'static str)
    ensures
        r@ == sound_file_name(sound_effect),
{
    match sound_effect {
        SoundEffect::Step1 => "step1",
        SoundEffect::Step2 => "step2",
        SoundEffect::BaseballBatSwing => "baseball_bat_swing",
        SoundEffect::UiCant => "ui_cant",
        SoundEffect::UiConfirm => "ui_confirm",
    }
}

/// Every song, in playlist order.
pub fn all_songs() -> (r: Vec<Song>)
    ensures
        r@ == seq![Song::Title, Song::Playing],
{
    vec![Song::Title, Song::Playing]
}

/// Every sound effect, in sound bank order.
pub fn all_sound_effects() -> (r: Vec<SoundEffect>)
    ensures
        r@ == seq![
            SoundEffect::Step1,
            SoundEffect::Step2,
            SoundEffect::BaseballBatSwing,
            SoundEffect::UiCant,
            SoundEffect::UiConfirm,
        ],
{
    vec![
        SoundEffect::Step1,
        SoundEffect::Step2,
        SoundEffect::BaseballBatSwing,
        SoundEffect::UiCant,
        SoundEffect::UiConfirm,
    ]
}

/// Which song must be stopped before `next` starts: the one playing, when it
/// is a different one.
pub fn song_to_stop(current: Option<Song>, next: Song) -> (r: Option<Song>)
    ensures
        r == (match current {
            Some(c) => if c != next { Some(c) } else { None },
            None => None,
        }),
{
    match current {
        Some(c) => if c != next { Some(c) } else { None },
        None => None,
    }
}

} // verus!
