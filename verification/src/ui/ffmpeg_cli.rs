//! The command line window: its cook book of sample command lines.

use vstd::prelude::*;

verus! {

/// A named task with the command lines that do it.
pub struct Recipe {
    pub name: &'static str,
    pub descriptions: Vec<&'static str>,
}

pub const CROP_NAME: &'static str = "Crop video";

pub const CROP: &'static str = "-vf crop=out_w:out_h:x:y out.mp4";

pub const REPLACE_AUDIO_NAME: &'static str = "Replace audio track";

pub const REPLACE_AUDIO: &'static str =
    "-i video.mp4 -i audio.wav -c:v copy -map 0:v:0 -map 1:a:0 out.mp4";

pub const BURN_NAME: &'static str = "Burn subtitles";

pub const BURN_SRT: &'static str = "-vf subtitles=subtitle.srt";

pub const BURN_ASS: &'static str = "-vf ass=subtitle.ass out.mp4";

/// What the substitutions of a command line mean.
pub const FFMPEG_HELP_TEXT: &'static str =
    "{i}: Currently opened media file\n{r.x} Rectangle\n{t.x} Timespan\n{v.x} Video output preset\n";

/// The cook book: cropping, replacing the audio track, burning subtitles.
pub fn recipes() -> (book: Vec<Recipe>)
    ensures
        book@.len() == 3,
        book@[0].name@ == CROP_NAME@ && book@[0].descriptions@ == seq![CROP],
        book@[1].name@ == REPLACE_AUDIO_NAME@ && book@[1].descriptions@ == seq![REPLACE_AUDIO],
        book@[2].name@ == BURN_NAME@ && book@[2].descriptions@ == seq![BURN_SRT, BURN_ASS],
{
    let mut crop: Vec<&'static str> = Vec::new();
    crop.push(CROP);
    let mut audio: Vec<&'static str> = Vec::new();
    audio.push(REPLACE_AUDIO);
    let mut burn: Vec<&'static str> = Vec::new();
    burn.push(BURN_SRT);
    burn.push(BURN_ASS);
    assert(crop@ =~= seq![CROP]);
    assert(audio@ =~= seq![REPLACE_AUDIO]);
    assert(burn@ =~= seq![BURN_SRT, BURN_ASS]);
    let mut book: Vec<Recipe> = Vec::new();
    book.push(Recipe { name: CROP_NAME, descriptions: crop });
    book.push(Recipe { name: REPLACE_AUDIO_NAME, descriptions: audio });
    book.push(Recipe { name: BURN_NAME, descriptions: burn });
    book
}

} // verus!
