use ash::vk;
use jb_gfx::barrier::AttachmentHandle;
use jb_gfx::handles::{BufferHandle, ImageHandle};
use jb_gfx::device::DeviceFrame;
use jb_gfx::upload::{
    expire_pending_buffers, image_upload_size, mip_level_count, upload_commands, ImageToUpload, UploadCommand, UploadQueue,
};
use jb_gfx::vkflags::{
    ACCESS_TRANSFER_READ, ACCESS_TRANSFER_WRITE, LAYOUT_SHADER_READ_ONLY_OPTIMAL,
    LAYOUT_TRANSFER_DST_OPTIMAL, LAYOUT_TRANSFER_SRC_OPTIMAL, LAYOUT_UNDEFINED, STAGE_TRANSFER,
};

#[test]
fn transfer_constants_are_vulkan_values() {
    assert_eq!(STAGE_TRANSFER, vk::PipelineStageFlags2::TRANSFER.as_raw());
    assert_eq!(ACCESS_TRANSFER_READ, vk::AccessFlags2::TRANSFER_READ.as_raw());
    assert_eq!(ACCESS_TRANSFER_WRITE, vk::AccessFlags2::TRANSFER_WRITE.as_raw());
    assert_eq!(LAYOUT_TRANSFER_SRC_OPTIMAL, vk::ImageLayout::TRANSFER_SRC_OPTIMAL.as_raw());
    assert_eq!(LAYOUT_TRANSFER_DST_OPTIMAL, vk::ImageLayout::TRANSFER_DST_OPTIMAL.as_raw());
}

fn upload(width: u32, height: u32, mip_levels: u32, img_layers: u32) -> ImageToUpload {
    ImageToUpload {
        buffer_handle: BufferHandle { key: 0x1_0000_0001 },
        image_handle: ImageHandle { key: 0x1_0000_0002 },
        width,
        height,
        mip_levels,
        img_layers,
    }
}

fn barrier(c: &UploadCommand) -> jb_gfx::barrier::ImageBarrier {
    match c {
        UploadCommand::Barrier(b) => *b,
        other => panic!("expected a barrier, got {:?}", other),
    }
}

#[test]
fn single_level_upload_is_copy_between_two_barriers() {
    let commands = upload_commands(&upload(16, 16, 1, 1));
    assert_eq!(commands.len(), 3);
    let first = barrier(&commands[0]);
    assert_eq!(first.old_layout, LAYOUT_UNDEFINED);
    assert_eq!(first.new_layout, LAYOUT_TRANSFER_DST_OPTIMAL);
    assert_eq!(first.level_count, 1);
    assert_eq!(first.image, AttachmentHandle::Image(ImageHandle { key: 0x1_0000_0002 }));
    assert_eq!(
        commands[1],
        UploadCommand::CopyBufferToImage {
            buffer: BufferHandle { key: 0x1_0000_0001 },
            image: ImageHandle { key: 0x1_0000_0002 },
            width: 16,
            height: 16,
            layers: 1,
        }
    );
    let last = barrier(&commands[2]);
    assert_eq!(last.base_mip_level, 0);
    assert_eq!(last.old_layout, LAYOUT_TRANSFER_DST_OPTIMAL);
    assert_eq!(last.new_layout, LAYOUT_SHADER_READ_ONLY_OPTIMAL);
}

#[test]
fn mip_chain_blits_halve_down_to_one() {
    let commands = upload_commands(&upload(4, 2, 3, 6));
    assert_eq!(commands.len(), 9);
    assert_eq!(barrier(&commands[0]).level_count, 3);
    assert_eq!(barrier(&commands[0]).image_layers, 1);
    let to_src = barrier(&commands[2]);
    assert_eq!(to_src.base_mip_level, 0);
    assert_eq!(to_src.new_layout, LAYOUT_TRANSFER_SRC_OPTIMAL);
    assert_eq!(to_src.image_layers, 6);
    assert_eq!(
        commands[3],
        UploadCommand::Blit {
            image: ImageHandle { key: 0x1_0000_0002 },
            src_mip: 0,
            dst_mip: 1,
            src_width: 4,
            src_height: 2,
            dst_width: 2,
            dst_height: 1,
            layers: 6,
        }
    );
    assert_eq!(barrier(&commands[4]).new_layout, LAYOUT_SHADER_READ_ONLY_OPTIMAL);
    assert_eq!(
        commands[6],
        UploadCommand::Blit {
            image: ImageHandle { key: 0x1_0000_0002 },
            src_mip: 1,
            dst_mip: 2,
            src_width: 2,
            src_height: 1,
            dst_width: 1,
            dst_height: 1,
            layers: 6,
        }
    );
    let last = barrier(&commands[8]);
    assert_eq!(last.base_mip_level, 2);
    assert_eq!(last.new_layout, LAYOUT_SHADER_READ_ONLY_OPTIMAL);
}

#[test]
fn staging_size_is_four_bytes_per_texel_and_layer() {
    assert_eq!(image_upload_size(4, 2, 6), 192);
    assert_eq!(image_upload_size(1024, 1024, 1), 4 * 1024 * 1024);
    assert_eq!(image_upload_size(7, 3, 0), 0);
}

#[test]
fn only_buffers_at_their_last_frame_are_freed() {
    let a = BufferHandle { key: 0x1_0000_0001 };
    let b = BufferHandle { key: 0x1_0000_0002 };
    let c = BufferHandle { key: 0x1_0000_0003 };
    assert_eq!(expire_pending_buffers(&vec![(a, 2), (b, 1), (c, 1)]), vec![b, c]);
    assert!(expire_pending_buffers(&vec![(a, 2)]).is_empty());
    assert!(expire_pending_buffers(&Vec::new()).is_empty());
}

#[test]
fn frame_start_uploads_queued_images_once() {
    let mut queue = UploadQueue::new();
    let first = upload(8, 4, 3, 1);
    let second = ImageToUpload {
        buffer_handle: BufferHandle { key: 0x1_0000_0007 },
        image_handle: ImageHandle { key: 0x1_0000_0008 },
        ..upload(2, 2, 1, 6)
    };
    queue.queue_image(first);
    queue.queue_image(second);
    let frame = queue.start_frame();
    assert!(frame.freed.is_empty());
    let mut expected = upload_commands(&first);
    expected.extend(upload_commands(&second));
    assert_eq!(frame.commands, expected);
    let again = queue.start_frame();
    assert!(again.commands.is_empty());
    assert!(again.freed.is_empty());
}

#[test]
fn device_frame_start_resets_timestamps_and_drains_uploads() {
    let mut device = DeviceFrame::new();
    device.load_image(upload(4, 4, 3, 1));
    let _ = device.clock.write_timestamp();
    let frame = device.start_frame();
    assert_eq!(frame.commands, upload_commands(&upload(4, 4, 3, 1)));
    assert_eq!(device.clock.write_timestamp().0, 0);
    assert!(device.start_frame().commands.is_empty());
}

#[test]
fn mip_levels_halve_the_larger_side_down_to_one() {
    assert_eq!(mip_level_count(0, 0), 1);
    assert_eq!(mip_level_count(1, 1), 1);
    assert_eq!(mip_level_count(2, 1), 2);
    assert_eq!(mip_level_count(1024, 512), 11);
    assert_eq!(mip_level_count(512, 1023), 10);
    assert_eq!(mip_level_count(4096, 4096), 13);
    for (w, h) in [(3u32, 7u32), (640, 480), (1920, 1080), (1, 8192)] {
        assert_eq!(mip_level_count(w, h), (w.max(h) as f32).log2().floor() as u32 + 1);
    }
}
