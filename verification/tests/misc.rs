use cem::assets::LoadingProgress;
use cem::config::{default_multisample_count, default_recently_opened_files_limit, default_to_true};
use cem::geometry::VolumeMesh;

#[test]
fn loading_progress_from_option() {
    let ready: LoadingProgress<u32> = LoadingProgress::from(Some(7));
    assert!(matches!(ready, LoadingProgress::Ready(7)));
    let pending: LoadingProgress<u32> = None.into();
    assert!(matches!(pending, LoadingProgress::Pending));
}

#[test]
fn config_defaults() {
    assert_eq!(default_recently_opened_files_limit(), 10);
    assert!(default_to_true());
    assert_eq!(default_multisample_count(), 4);
}

#[test]
fn volume_mesh_starts_empty() {
    let _mesh: VolumeMesh<(), (), (), ()> = VolumeMesh::new();
    let _mesh: VolumeMesh<u8, u8, u8, u8> = VolumeMesh::default();
}
