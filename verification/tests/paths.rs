use image_changer::misc::ImgError;
use image_changer::utils::{absolute_path, base_directory};
use std::path::PathBuf;

#[test]
fn an_absolute_path_needs_no_directory() {
    let home = PathBuf::from("/home");
    assert_eq!(base_directory(true, None), Ok(None));
    assert_eq!(base_directory(true, Some(&home)), Ok(None));
}

#[test]
fn a_relative_path_is_taken_from_the_current_directory() {
    let home = PathBuf::from("/home");
    assert_eq!(base_directory(false, Some(&home)), Ok(Some(&home)));
}

#[test]
fn a_relative_path_without_a_current_directory_is_refused() {
    assert_eq!(base_directory(false, None), Err(ImgError::WorkingDirectory));
    assert_eq!(
        absolute_path(&PathBuf::from("pictures/cat.png"), None),
        Err(ImgError::WorkingDirectory)
    );
}

#[test]
fn a_relative_path_is_joined_and_cleaned() {
    let user = PathBuf::from("/home/user");
    assert_eq!(
        absolute_path(&PathBuf::from("./tests/../pictures/./cat.png"), Some(&user)),
        Ok(PathBuf::from("/home/user/pictures/cat.png"))
    );
    assert_eq!(
        absolute_path(&PathBuf::from("../cat.png"), Some(&user)),
        Ok(PathBuf::from("/home/cat.png"))
    );
}

#[test]
fn an_absolute_path_is_cleaned_and_not_joined() {
    let user = PathBuf::from("/home/user");
    assert_eq!(
        absolute_path(&PathBuf::from("/srv//images/../cat.png"), Some(&user)),
        Ok(PathBuf::from("/srv/cat.png"))
    );
    assert_eq!(
        absolute_path(&PathBuf::from("/srv/images/./"), None),
        Ok(PathBuf::from("/srv/images"))
    );
    assert_eq!(
        absolute_path(&PathBuf::from("/.."), None),
        Ok(PathBuf::from("/"))
    );
}

#[test]
fn the_resolved_path_is_spelt_out_without_a_trailing_separator() {
    let user = PathBuf::from("/home/user");
    let resolved = absolute_path(&PathBuf::from("pictures/"), Some(&user)).unwrap();
    assert_eq!(resolved.to_str(), Some("/home/user/pictures"));
    let here = absolute_path(&PathBuf::from("."), Some(&user)).unwrap();
    assert_eq!(here.to_str(), Some("/home/user"));
}
