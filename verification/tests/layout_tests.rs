use video_queue::job::VideoId;
use video_queue::layout::{archive_path, base_name, join, manifest_path, video_dir};
use video_queue::settings::{get_ffmpeg_location, get_videos_dir, Settings};
use video_queue::text::chars_of;

const ID: u128 = 0x67e55044_10b1_426f_9247_bb680e5fe0c8;

#[test]
fn identifier_text_is_a_hyphenated_uuid() {
    assert_eq!(VideoId(ID).to_text(), "67e55044-10b1-426f-9247-bb680e5fe0c8");
    assert_eq!(VideoId(0).to_text(), "00000000-0000-0000-0000-000000000000");
    assert_eq!(VideoId(u128::MAX).to_text(), "ffffffff-ffff-ffff-ffff-ffffffffffff");
    assert_eq!(VideoId(0xa).to_text(), "00000000-0000-0000-0000-00000000000a");
}

#[test]
fn identifier_text_agrees_with_the_uuid_crate() {
    let id = uuid::Uuid::from_u128(ID);
    assert_eq!(VideoId(id.as_u128()).to_text(), id.hyphenated().to_string());
}

#[test]
fn join_puts_one_separator_between() {
    assert_eq!(join("videos", "a"), "videos/a");
    assert_eq!(join("videos/", "a"), "videos/a");
    assert_eq!(join("", "a"), "a");
    assert_eq!(join("/", "a"), "/a");
    assert_eq!(join("vidéos", "ä"), "vidéos/ä");
}

#[test]
fn paths_of_a_video() {
    assert_eq!(video_dir("videos", VideoId(ID)), "videos/67e55044-10b1-426f-9247-bb680e5fe0c8");
    assert_eq!(
        manifest_path("videos", VideoId(ID)),
        "videos/67e55044-10b1-426f-9247-bb680e5fe0c8/master.m3u8"
    );
    assert_eq!(
        archive_path("/srv/media/", VideoId(ID)),
        "/srv/media/67e55044-10b1-426f-9247-bb680e5fe0c8/raw.zip"
    );
}

#[test]
fn base_name_is_the_last_real_segment() {
    assert_eq!(base_name("uploads/clip.mp4"), Some("clip.mp4".to_string()));
    assert_eq!(base_name("clip.mp4"), Some("clip.mp4".to_string()));
    assert_eq!(base_name("/usr/bin/"), Some("bin".to_string()));
    assert_eq!(base_name("foo.txt/."), Some("foo.txt".to_string()));
    assert_eq!(base_name("foo.txt/.//"), Some("foo.txt".to_string()));
    assert_eq!(base_name("a/./b"), Some("b".to_string()));
    assert_eq!(base_name("../a"), Some("a".to_string()));
    assert_eq!(base_name("a/...."), Some("....".to_string()));
    assert_eq!(base_name("a/.hidden"), Some(".hidden".to_string()));
    assert_eq!(base_name("téléchargé/vidéo.mp4"), Some("vidéo.mp4".to_string()));
}

#[test]
fn base_name_of_a_path_without_a_name() {
    assert_eq!(base_name(""), None);
    assert_eq!(base_name("/"), None);
    assert_eq!(base_name("."), None);
    assert_eq!(base_name("./"), None);
    assert_eq!(base_name(".."), None);
    assert_eq!(base_name("foo.txt/.."), None);
    assert_eq!(base_name("a/../."), None);
    assert_eq!(base_name("//"), None);
}

#[test]
fn base_name_agrees_with_std_on_these_paths() {
    for path in ["uploads/clip.mp4", "/usr/bin/", "foo.txt/.", "foo/..", "/", "", "a//b/./", "."] {
        let expected =
            std::path::Path::new(path).file_name().map(|name| name.to_string_lossy().into_owned());
        assert_eq!(base_name(path), expected, "path {:?}", path);
    }
}

#[test]
fn chars_of_lists_the_characters() {
    assert_eq!(chars_of("aé/"), vec!['a', 'é', '/']);
    assert_eq!(chars_of(""), Vec::<char>::new());
}

#[test]
fn settings_fall_back_to_defaults() {
    assert_eq!(get_ffmpeg_location(None), "/usr/bin/ffmpeg");
    assert_eq!(get_ffmpeg_location(Some("/opt/ffmpeg".to_string())), "/opt/ffmpeg");
    assert_eq!(get_videos_dir(None), "videos");
    assert_eq!(get_videos_dir(Some("/data".to_string())), "/data");
    let settings = Settings::resolve(None, Some("/data".to_string()));
    assert_eq!(
        settings,
        Settings { ffmpeg_location: "/usr/bin/ffmpeg".to_string(), videos_dir: "/data".to_string() }
    );
    assert_eq!(settings.duplicate(), settings);
}
