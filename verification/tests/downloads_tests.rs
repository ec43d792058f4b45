use aethervk_device::downloads::{
    check_download_buffer, copy_len, download_barriers, download_size, download_wait_value,
    DownloadError, PendingDownload, PendingDownloads, LAYOUT_COLOR_ATTACHMENT_OPTIMAL,
    LAYOUT_TRANSFER_SRC_OPTIMAL, STAGE_COPY,
};

fn dl(buffer: u64, engine: Option<u64>) -> PendingDownload {
    PendingDownload { staging_buffer: buffer, allocation: buffer + 100, size: 16, presentation_engine: engine }
}

#[test]
fn reading_frees_older_downloads_of_the_same_engine() {
    let mut p = PendingDownloads::new();
    p.record(1, dl(10, Some(7)));
    p.record(2, dl(20, Some(8)));
    p.record(3, dl(30, Some(7)));
    p.record(5, dl(50, Some(7)));
    p.record(4, dl(40, Some(7)));
    let t = p.take_for_read(4, true).unwrap();
    assert_eq!(t.download.staging_buffer, 40);
    let mut freed: Vec<u64> = t.stale.iter().map(|d| d.staging_buffer).collect();
    freed.sort();
    assert_eq!(freed, vec![10, 30]);
    assert_eq!(p.take_for_read(1, true).err(), Some(DownloadError::UnknownTask(1)));
    let rest: Vec<u64> = {
        let mut v: Vec<u64> = p.drain().iter().map(|d| d.staging_buffer).collect();
        v.sort();
        v
    };
    assert_eq!(rest, vec![20, 50]);
}

#[test]
fn incomplete_or_unknown_downloads_are_refused() {
    let mut p = PendingDownloads::new();
    p.record(1, dl(10, None));
    assert_eq!(p.take_for_read(1, false).err(), Some(DownloadError::NotCompleted));
    assert_eq!(p.take_for_read(2, true).err(), Some(DownloadError::UnknownTask(2)));
    let t = p.take_for_read(1, true).unwrap();
    assert!(t.stale.is_empty());
    assert_eq!(p.take_for_read(1, true).err(), Some(DownloadError::UnknownTask(1)));
}

#[test]
fn download_sizes() {
    assert_eq!(download_size(4, 3), 48);
    assert_eq!(copy_len(10, 48), 10);
    assert_eq!(copy_len(100, 48), 48);
}

#[test]
fn download_checks_and_barriers() {
    assert_eq!(check_download_buffer(48, 4, 3), Ok(48));
    assert_eq!(check_download_buffer(47, 4, 3), Err(DownloadError::SizeMismatch(47, 48)));
    assert_eq!(download_wait_value(Some(9), 4), 9);
    assert_eq!(download_wait_value(None, 4), 4);
    let b = download_barriers(5, 48, STAGE_COPY);
    assert_eq!(b.before_copy.new_layout, LAYOUT_TRANSFER_SRC_OPTIMAL);
    assert_eq!(b.after_copy.new_layout, LAYOUT_COLOR_ATTACHMENT_OPTIMAL);
    assert_eq!(b.before_copy.dst_stage, STAGE_COPY);
    assert_eq!((b.to_host.buffer, b.to_host.size), (5, 48));
}
