use ash::vk;
use jb_gfx::descriptor::{
    AllocDecision, DescriptorAllocator, DescriptorBufferRange, DescriptorBuilder, DescriptorLayoutCache,
    DescriptorLayoutInfo, LayoutBinding, ERROR_OUT_OF_POOL_MEMORY, POOL_SET_COUNT,
};
use jb_gfx::pipeline::{
    apply_reloads, count_successes, PipelineColorAttachment, PipelineLayoutCache, PipelineLayoutInfo, PushRange,
    BLEND_FACTOR_ONE, BLEND_OP_ADD,
};
use jb_gfx::vkflags::FORMAT_UNDEFINED;

#[test]
fn vulkan_codes_match() {
    assert_eq!(ERROR_OUT_OF_POOL_MEMORY, vk::Result::ERROR_OUT_OF_POOL_MEMORY.as_raw());
    assert_eq!(BLEND_OP_ADD, vk::BlendOp::ADD.as_raw());
    assert_eq!(BLEND_FACTOR_ONE, vk::BlendFactor::ONE.as_raw());
}

#[test]
fn allocation_decisions() {
    assert_eq!(DescriptorAllocator::allocation_decision(Ok(42), false), AllocDecision::Done(42));
    assert_eq!(DescriptorAllocator::allocation_decision(Ok(42), true), AllocDecision::Done(42));
    assert_eq!(
        DescriptorAllocator::allocation_decision(Err(ERROR_OUT_OF_POOL_MEMORY), false),
        AllocDecision::NewPoolAndRetry
    );
    assert_eq!(
        DescriptorAllocator::allocation_decision(Err(ERROR_OUT_OF_POOL_MEMORY), true),
        AllocDecision::Fail
    );
    assert_eq!(
        DescriptorAllocator::allocation_decision(Err(vk::Result::ERROR_OUT_OF_HOST_MEMORY.as_raw()), false),
        AllocDecision::Fail
    );
}

#[test]
fn allocator_pool_lifecycle() {
    let mut alloc = DescriptorAllocator::new();
    assert!(alloc.needs_pool());
    assert_eq!(alloc.grab_pool(), POOL_SET_COUNT);
    alloc.use_pool(7);
    assert!(!alloc.needs_pool());
    assert_eq!(alloc.current_pool(), Some(7));
    alloc.use_pool(8);
    assert_eq!(alloc.used_pools(), &vec![7, 8]);
    let used = alloc.used_pools().clone();
    for pool in used {
        alloc.mark_reset(pool);
    }
    alloc.finish_reset();
    assert!(alloc.needs_pool());
    assert!(alloc.used_pools().is_empty());
    assert_eq!(alloc.free_pools(), &vec![7, 8]);
    assert_eq!(alloc.current_pool(), None);
}

fn binding(binding: u32, count: u32) -> LayoutBinding {
    LayoutBinding {
        binding,
        descriptor_type: vk::DescriptorType::UNIFORM_BUFFER.as_raw(),
        descriptor_count: count,
        stage_flags: vk::ShaderStageFlags::VERTEX.as_raw(),
    }
}

#[test]
fn layout_equality_compares_bindings() {
    let a = DescriptorLayoutInfo { bindings: vec![binding(0, 1), binding(1, 1)] };
    let b = DescriptorLayoutInfo { bindings: vec![binding(0, 1), binding(1, 1)] };
    let c = DescriptorLayoutInfo { bindings: vec![binding(0, 1), binding(1, 2)] };
    let d = DescriptorLayoutInfo { bindings: vec![binding(0, 1)] };
    assert!(a.eq(&b));
    assert!(!a.eq(&c));
    assert!(!a.eq(&d));
}

#[test]
fn layout_hash_words() {
    let info = DescriptorLayoutInfo { bindings: vec![binding(2, 3)] };
    let (count, words) = info.hash_words();
    assert_eq!(count, 1);
    let expected: i64 = 2 | (6i64 << 8) | ((3u32 << 16) as i64) | (1i64 << 24);
    assert_eq!(words, vec![expected]);
}

#[test]
fn layout_cache_finds_equal_bindings() {
    let mut cache = DescriptorLayoutCache::new();
    let a = DescriptorLayoutInfo { bindings: vec![binding(0, 1)] };
    assert_eq!(cache.get(&a), None);
    cache.insert(&a, 99);
    let same = DescriptorLayoutInfo { bindings: vec![binding(0, 1)] };
    assert_eq!(cache.get(&same), Some(99));
    let other = DescriptorLayoutInfo { bindings: vec![binding(0, 4)] };
    assert_eq!(cache.get(&other), None);
}

fn push(size: u32) -> PushRange {
    PushRange { stage_flags: vk::ShaderStageFlags::VERTEX.as_raw(), offset: 0, size }
}

#[test]
fn pipeline_layout_eq_ignores_extra_ranges_of_other() {
    let a = PipelineLayoutInfo { descriptor_sets: vec![1, 2], push_constant_range: vec![] };
    let b = PipelineLayoutInfo { descriptor_sets: vec![1, 2], push_constant_range: vec![push(16)] };
    assert!(a.eq(&b));
    assert!(!a.same_as(&b));
    assert!(a.same_as(&PipelineLayoutInfo { descriptor_sets: vec![1, 2], push_constant_range: vec![] }));
    let c = PipelineLayoutInfo { descriptor_sets: vec![1, 3], push_constant_range: vec![] };
    assert!(!a.eq(&c));
    let d = PipelineLayoutInfo { descriptor_sets: vec![1, 2], push_constant_range: vec![push(32)] };
    assert!(!d.eq(&b));
}

#[test]
fn pipeline_layout_hash_words() {
    let info = PipelineLayoutInfo { descriptor_sets: vec![5], push_constant_range: vec![push(16)] };
    let (count, words) = info.hash_words();
    assert_eq!(count, 1);
    assert_eq!(words, vec![5, (16i64 << 8) | (1i64 << 16)]);
}

#[test]
fn pipeline_layout_cache() {
    let mut cache = PipelineLayoutCache::new();
    let info = PipelineLayoutInfo { descriptor_sets: vec![5], push_constant_range: vec![push(16)] };
    assert_eq!(cache.get(&info), None);
    cache.insert(&info, 11);
    let same = PipelineLayoutInfo { descriptor_sets: vec![5], push_constant_range: vec![push(16)] };
    assert_eq!(cache.get(&same), Some(11));
    let fewer = PipelineLayoutInfo { descriptor_sets: vec![5], push_constant_range: vec![] };
    assert_eq!(cache.get(&fewer), None);
}

#[test]
fn colour_attachment_default_and_reload_count() {
    let a = PipelineColorAttachment::default();
    assert_eq!(a.format, FORMAT_UNDEFINED);
    assert!(!a.blend);
    assert_eq!(a.blend_op_color, BLEND_OP_ADD);
    assert_eq!(a.dst_blend_factor_alpha, BLEND_FACTOR_ONE);
    assert_eq!(count_successes(&vec![true, false, true, true]), 3);
    assert_eq!(count_successes(&vec![]), 0);
}

#[test]
fn descriptor_builder_collects_bindings_and_writes() {
    let camera = DescriptorBufferRange { buffer: 7, offset: 0, range: 256 };
    let lights = DescriptorBufferRange { buffer: 9, offset: 64, range: 1024 };
    let builder = DescriptorBuilder::new()
        .bind_buffer(
            0,
            &vec![camera],
            vk::DescriptorType::UNIFORM_BUFFER.as_raw(),
            vk::ShaderStageFlags::VERTEX.as_raw(),
        )
        .bind_buffer(
            1,
            &vec![lights],
            vk::DescriptorType::STORAGE_BUFFER.as_raw(),
            vk::ShaderStageFlags::FRAGMENT.as_raw(),
        );
    let info = builder.layout_info();
    assert_eq!(
        info.bindings,
        vec![
            LayoutBinding {
                binding: 0,
                descriptor_type: vk::DescriptorType::UNIFORM_BUFFER.as_raw(),
                descriptor_count: 1,
                stage_flags: vk::ShaderStageFlags::VERTEX.as_raw(),
            },
            LayoutBinding {
                binding: 1,
                descriptor_type: vk::DescriptorType::STORAGE_BUFFER.as_raw(),
                descriptor_count: 1,
                stage_flags: vk::ShaderStageFlags::FRAGMENT.as_raw(),
            },
        ]
    );
    assert_eq!(builder.writes.len(), 2);
    assert_eq!(builder.writes[0].binding, 0);
    assert_eq!(builder.writes[0].buffers, vec![camera]);
    assert_eq!(builder.writes[1].descriptor_type, vk::DescriptorType::STORAGE_BUFFER.as_raw());
    assert_eq!(builder.writes[1].buffers, vec![lights]);

    let mut cache = DescriptorLayoutCache::new();
    assert_eq!(cache.get(&info), None);
    cache.insert(&info, 42);
    assert_eq!(cache.get(&builder.layout_info()), Some(42));
}

#[test]
fn reloads_replace_only_rebuilt_pipelines() {
    let mut psos = vec![10u64, 11, 12, 13];
    let mut old_pipelines = vec![1u64];
    apply_reloads(&mut psos, &mut old_pipelines, &vec![Some(20), None, Some(22), None]);
    assert_eq!(psos, vec![20, 11, 22, 13]);
    assert_eq!(old_pipelines, vec![1, 10, 12]);
    assert_eq!(count_successes(&vec![true, false, true, false]), 2);
}
