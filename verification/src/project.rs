//! Project bookkeeping data and the pure decisions of the upload flow. The
//! reading and writing of metadata files, directories and uploads is the
//! caller's concern; what is decided about them is settled here.

use crate::paths::{path_join, spec_path_join};
use vstd::prelude::*;
use vstd::string::StringExecFns;

verus! {

/// A project as listed to callers: its identifier, display name, and the
/// address of its display image.
#[derive(Debug)]
pub struct Project {
    pub id: String,
    pub project_name: String,
    pub thumbnail_path: String,
}

/// The stored description of one project.
#[derive(Debug)]
pub struct ProjectMetadata {
    pub project_name: String,
    pub fps: usize,
    pub scale: String,
    pub video_file_extension: String,
    pub latest_long_exposure_image_name: Option<String>,
}

/// The answer to a project listing request.
#[derive(Debug)]
pub struct GetProjectsResponse {
    pub projects: Vec<Project>,
}

/// The answer to a video upload.
#[derive(Debug)]
pub struct UploadVideoResponse {
    pub message: &'static str,
    pub project_id: String,
}

/// The processing arguments of an upload: the scale the frames are extracted
/// at and the frame rate.
#[derive(Debug)]
pub struct MovieProcessingArgs {
    pub scale: String,
    pub fps: usize,
}

/// Whether a repeated upload can skip the extraction step: it can exactly
/// when the requested frame rate and scale match the stored metadata.
pub fn should_skip_processing(metadata: &ProjectMetadata, fps: usize, scale: &String) -> (r: bool)
    ensures
        r == (metadata.fps == fps && metadata.scale@ == scale@),
{
    metadata.fps == fps && metadata.scale == *scale
}

/// The extension the uploaded video is stored under: the one the upload
/// provided, or failing that the one recorded in existing metadata. Nothing
/// to go by is an error the caller reports.
pub fn resolve_video_extension(provided: Option<String>, metadata: Option<&ProjectMetadata>) -> (r:
    Option<String>)
    ensures
        match r {
            Option::Some(ext) => (provided is Some && ext@ == provided.unwrap()@) || (provided
                is None && metadata is Some && ext@ == metadata.unwrap().video_file_extension@),
            Option::None => provided is None && metadata is None,
        },
{
    match provided {
        Option::Some(ext) => Option::Some(ext),
        Option::None => match metadata {
            Option::Some(m) => Option::Some(m.video_file_extension.clone()),
            Option::None => Option::None,
        },
    }
}

/// Where a project's metadata file lives: the output root, the project
/// identifier, then `metadata.json`.
pub fn metadata_file_path(output_dir: &str, project_id: &str) -> (r: String)
    ensures
        r@ == spec_path_join(spec_path_join(output_dir@, project_id@), "metadata.json"@),
{
    let dir = path_join(output_dir, project_id);
    path_join(dir.as_str(), "metadata.json")
}

/// Where a project's extracted frames live: the output root joined with
/// `<project id>/frames/`.
pub fn frames_dir_for_project(output_dir: &str, project_id: &str) -> (r: String)
    ensures
        r@ == spec_path_join(output_dir@, project_id@ + "/frames/"@),
{
    let mut child = String::from_str(project_id);
    child.append("/frames/");
    path_join(output_dir, child.as_str())
}

/// The file name an uploaded video is stored under: the project identifier,
/// a dot, and its extension.
pub fn uploaded_video_file_name(video_id: &str, extension: &str) -> (r: String)
    ensures
        r@ == video_id@ + seq!['.'] + extension@,
{
    let mut name = String::from_str(video_id);
    name.append(".");
    name.append(extension);
    proof {
        reveal_strlit(".");
        assert(name@ =~= video_id@ + seq!['.'] + extension@);
    }
    name
}

/// The project's display image: the stored composite when one was found in
/// the project directory, else the first thumbnail the extraction produced.
pub fn find_thumbnail(project_dir: &str, long_exposure_name: Option<&String>) -> (r: String)
    ensures
        match long_exposure_name {
            Option::Some(name) => r@ == spec_path_join(project_dir@, name@),
            Option::None => r@ == spec_path_join(
                project_dir@,
                "frames/ffout_thumbnail_0001.webp"@,
            ),
        },
{
    match long_exposure_name {
        Option::Some(name) => path_join(project_dir, name.as_str()),
        Option::None => path_join(project_dir, "frames/ffout_thumbnail_0001.webp"),
    }
}

} // verus!
