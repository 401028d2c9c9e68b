//! Export planning: which storages feed each requested output raster,
//! decided — and every missing-channel condition reported — before any
//! pixel is encoded or any file is written. The encoding and the writing
//! themselves are I/O and live outside the library.

use vstd::prelude::*;

use crate::channel::ChannelKind;
use crate::error::FilmError;
use crate::film::Film;

verus! {

/// One output raster and the storage indices that feed it. The color
/// output composites with alpha (transparent background), with the
/// background channel, or stands alone; the other channels export alone.
#[derive(Clone, Copy, PartialEq, Eq, Structural, Debug)]
pub enum ExportTask {
    ColorWithAlpha { color: usize, alpha: usize },
    ColorWithBackground { color: usize, background: usize },
    ColorPlain { color: usize },
    BackgroundOnly { background: usize },
    WorldNormalOnly { normal: usize },
    AlphaOnly { alpha: usize },
}

/// Whether one requested channel can be exported from a film with the
/// given channel kinds: color needs the color channel, plus alpha when a
/// transparent background is asked for; any other channel only needs to
/// exist.
pub open spec fn spec_can_export(
    kinds: Seq<ChannelKind>,
    kind: ChannelKind,
    transparent: bool,
) -> bool {
    match kind {
        ChannelKind::Color => kinds.contains(ChannelKind::Color) && (transparent
            ==> kinds.contains(ChannelKind::Alpha)),
        k => kinds.contains(k),
    }
}

/// The error reported for a requested channel that cannot be exported.
pub open spec fn spec_export_err(kind: ChannelKind) -> FilmError {
    match kind {
        ChannelKind::Color => FilmError::InsufficientColorChannels,
        k => FilmError::MissingChannel(k),
    }
}

/// The task planned for one exportable requested channel addresses the
/// right storages: every index in range and of the kind its role asks
/// for, and the color output composites with alpha exactly when the
/// background is transparent, else with the background channel exactly
/// when the film has one.
pub open spec fn spec_task_matches(
    kinds: Seq<ChannelKind>,
    kind: ChannelKind,
    transparent: bool,
    task: ExportTask,
) -> bool {
    match kind {
        ChannelKind::Color => if transparent {
            task matches ExportTask::ColorWithAlpha { color, alpha } && color < kinds.len()
                && kinds[color as int] == ChannelKind::Color && alpha < kinds.len()
                && kinds[alpha as int] == ChannelKind::Alpha
        } else if kinds.contains(ChannelKind::Background) {
            task matches ExportTask::ColorWithBackground { color, background } && color
                < kinds.len() && kinds[color as int] == ChannelKind::Color && background
                < kinds.len() && kinds[background as int] == ChannelKind::Background
        } else {
            task matches ExportTask::ColorPlain { color } && color < kinds.len() && kinds[
                color as int] == ChannelKind::Color
        },
        ChannelKind::Background => task matches ExportTask::BackgroundOnly { background }
            && background < kinds.len() && kinds[background as int] == ChannelKind::Background,
        ChannelKind::WorldNormal => task matches ExportTask::WorldNormalOnly { normal } && normal
            < kinds.len() && kinds[normal as int] == ChannelKind::WorldNormal,
        ChannelKind::Alpha => task matches ExportTask::AlphaOnly { alpha } && alpha < kinds.len()
            && kinds[alpha as int] == ChannelKind::Alpha,
    }
}

impl Film {
    /// Plan the export of the requested channels: one task per request,
    /// in request order, or the error of the first request the film
    /// cannot serve — reported before anything is encoded or written.
    pub fn export_plan(
        &self,
        write_channels: &[ChannelKind],
        transparent_background: bool,
    ) -> (r: Result<Vec<ExportTask>, FilmError>)
        ensures
            r is Ok <==> forall|i: int|
                0 <= i < write_channels@.len() ==> spec_can_export(
                    self.kinds(),
                    write_channels@[i],
                    transparent_background,
                ),
            r matches Ok(v) ==> v@.len() == write_channels@.len() && forall|i: int|
                0 <= i < write_channels@.len() ==> spec_task_matches(
                    self.kinds(),
                    write_channels@[i],
                    transparent_background,
                    #[trigger] v@[i],
                ),
            r matches Err(e) ==> exists|i: int|
                0 <= i < write_channels@.len() && !spec_can_export(
                    self.kinds(),
                    #[trigger] write_channels@[i],
                    transparent_background,
                ) && (forall|i2: int|
                    0 <= i2 < i ==> spec_can_export(
                        self.kinds(),
                        write_channels@[i2],
                        transparent_background,
                    )) && e == spec_export_err(write_channels@[i]),
    {
        let n = write_channels.len();
        let mut tasks: Vec<ExportTask> = Vec::new();
        let mut i: usize = 0;
        #[verifier::loop_isolation(false)]
        while i < n
            invariant
                i <= n,
                tasks@.len() == i,
                forall|i2: int|
                    0 <= i2 < i ==> spec_can_export(
                        self.kinds(),
                        write_channels@[i2],
                        transparent_background,
                    ),
                forall|i2: int|
                    0 <= i2 < i ==> spec_task_matches(
                        self.kinds(),
                        write_channels@[i2],
                        transparent_background,
                        #[trigger] tasks@[i2],
                    ),
            decreases n - i,
        {
            let kind = write_channels[i];
            let task = match kind {
                ChannelKind::Color => {
                    let color_idx = self.channel_index(ChannelKind::Color);
                    if transparent_background {
                        let alpha_idx = self.channel_index(ChannelKind::Alpha);
                        match (color_idx, alpha_idx) {
                            (Some(color), Some(alpha)) => ExportTask::ColorWithAlpha {
                                color,
                                alpha,
                            },
                            _ => {
                                return Err(FilmError::InsufficientColorChannels);
                            },
                        }
                    } else {
                        let bg_idx = self.channel_index(ChannelKind::Background);
                        match (color_idx, bg_idx) {
                            (Some(color), Some(background)) => ExportTask::ColorWithBackground {
                                color,
                                background,
                            },
                            (Some(color), None) => ExportTask::ColorPlain { color },
                            _ => {
                                return Err(FilmError::InsufficientColorChannels);
                            },
                        }
                    }
                },
                ChannelKind::Background => {
                    match self.channel_index(ChannelKind::Background) {
                        Some(background) => ExportTask::BackgroundOnly { background },
                        None => {
                            return Err(FilmError::MissingChannel(ChannelKind::Background));
                        },
                    }
                },
                ChannelKind::WorldNormal => {
                    match self.channel_index(ChannelKind::WorldNormal) {
                        Some(normal) => ExportTask::WorldNormalOnly { normal },
                        None => {
                            return Err(FilmError::MissingChannel(ChannelKind::WorldNormal));
                        },
                    }
                },
                ChannelKind::Alpha => {
                    match self.channel_index(ChannelKind::Alpha) {
                        Some(alpha) => ExportTask::AlphaOnly { alpha },
                        None => {
                            return Err(FilmError::MissingChannel(ChannelKind::Alpha));
                        },
                    }
                },
            };
            tasks.push(task);
            i = i + 1;
        }
        Ok(tasks)
    }
}

} // verus!
