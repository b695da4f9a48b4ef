use quasar::error::SpatialAudioError;
use quasar::gpu_pipeline::{GpuMaterialLayout, MaterialInstanceInfo};
use quasar::materials::{
    AcousticMaterialInstance, AcousticMaterialRegistry, MaterialModelId, MaterialParameterBuffer,
    PorousDelanyBazleyEvaluator, ResonantPanelEvaluator, Tabular8BandEvaluator, TABULAR_MODEL_ID,
};

#[test]
fn material_registry_invalid_handle() {
    let mut reg: AcousticMaterialRegistry<Tabular8BandEvaluator> = AcousticMaterialRegistry::new();
    match reg.evaluation_target(999) {
        Err(SpatialAudioError::Material(_)) => {}
        _ => panic!("expected Material error"),
    }
    let update_result = reg.update_instance(999, MaterialParameterBuffer::empty());
    assert!(update_result.is_err());
}

#[test]
fn material_registry_remove_and_reindex() {
    let mut reg: AcousticMaterialRegistry<Tabular8BandEvaluator> = AcousticMaterialRegistry::new();
    let evaluator = Tabular8BandEvaluator::new();
    reg.register_evaluator(evaluator.model_id(), evaluator);
    let h0 = reg.add_instance(AcousticMaterialInstance::new(
        MaterialModelId(TABULAR_MODEL_ID),
        MaterialParameterBuffer::new(vec![1, 1, 1, 1]),
    ));
    let _h1 = reg.add_instance(AcousticMaterialInstance::new(
        MaterialModelId(TABULAR_MODEL_ID),
        MaterialParameterBuffer::new(vec![5, 5, 5, 5]),
    ));
    assert_eq!(reg.instance_count(), 2);
    assert!(reg.remove_instance(h0));
    assert_eq!(reg.instance_count(), 1);
    let (_, params) = reg.evaluation_target(0).unwrap();
    assert_eq!(params.data, vec![5, 5, 5, 5]);
    assert!(!reg.remove_instance(7));
}

#[test]
fn material_registry_hot_swap() {
    let mut reg: AcousticMaterialRegistry<Tabular8BandEvaluator> = AcousticMaterialRegistry::new();
    let evaluator = Tabular8BandEvaluator::new();
    reg.register_evaluator(evaluator.model_id(), evaluator);
    let handle = reg.add_instance(AcousticMaterialInstance::new(
        MaterialModelId(TABULAR_MODEL_ID),
        MaterialParameterBuffer::new(vec![2; 8]),
    ));
    assert_eq!(reg.total_parameter_bytes(), 8);
    reg.update_instance(handle, MaterialParameterBuffer::new(vec![9; 12])).unwrap();
    let inst = reg.get_instance(handle).unwrap();
    assert_eq!(inst.model_id, MaterialModelId(1));
    assert_eq!(inst.parameters.data, vec![9; 12]);
    assert_eq!(reg.total_parameter_bytes(), 12);
    assert!(reg.get_instance(handle + 1).is_none());
}

#[test]
fn evaluation_needs_a_registered_model() {
    let mut reg: AcousticMaterialRegistry<u8> = AcousticMaterialRegistry::new();
    let handle = reg.add_instance(AcousticMaterialInstance::new(MaterialModelId(2), MaterialParameterBuffer::empty()));
    assert!(matches!(reg.evaluation_target(handle), Err(SpatialAudioError::Material(_))));
    reg.register_evaluator(MaterialModelId(2), 7);
    assert_eq!(reg.evaluator_count(), 1);
    assert!(reg.has_evaluator(MaterialModelId(2)));
    assert_eq!(*reg.evaluation_target(handle).unwrap().0, 7);
    assert!(reg.unregister_evaluator(MaterialModelId(2)));
    assert!(!reg.unregister_evaluator(MaterialModelId(2)));
    assert!(!reg.has_evaluator(MaterialModelId(2)));
}

#[test]
fn evaluators_know_their_models() {
    assert_eq!(Tabular8BandEvaluator::new().model_id(), MaterialModelId(1));
    assert_eq!(PorousDelanyBazleyEvaluator::new().model_id(), MaterialModelId(2));
    assert_eq!(ResonantPanelEvaluator::new().model_id(), MaterialModelId(3));
}

#[test]
fn parameter_buffer_lengths() {
    let empty = MaterialParameterBuffer::empty();
    assert!(empty.is_empty());
    assert_eq!(empty.len(), 0);
    let buf = MaterialParameterBuffer::new(vec![1, 2, 3]);
    assert_eq!(buf.len(), 3);
    assert!(!buf.is_empty());
}

#[test]
fn gpu_material_layout_build() {
    let instances = vec![
        MaterialInstanceInfo {
            model_id: MaterialModelId(1),
            parameters: MaterialParameterBuffer::new(vec![1u8, 2, 3, 4]),
        },
        MaterialInstanceInfo {
            model_id: MaterialModelId(2),
            parameters: MaterialParameterBuffer::new(vec![5u8, 6, 7, 8]),
        },
    ];

    let layout = GpuMaterialLayout::build(&instances);
    assert_eq!(layout.descriptors.len(), 2);

    assert_eq!(layout.descriptors[0].model_id, 1);
    assert_eq!(layout.descriptors[0].param_offset, 0);
    assert_eq!(layout.descriptors[0].param_size, 4);

    let offset1 = layout.descriptors[1].param_offset as usize;
    assert!(offset1 >= 4);
    assert_eq!(layout.descriptors[1].model_id, 2);
    assert_eq!(layout.descriptors[1].param_size, 4);

    assert!(layout.storage_size() > 0);
    assert!(layout.descriptor_size() >= 2 * 16);
}

#[test]
fn gpu_layout_pads_blocks_to_sixteen_bytes() {
    let instances = vec![
        MaterialInstanceInfo { model_id: MaterialModelId(3), parameters: MaterialParameterBuffer::new(vec![7u8; 17]) },
        MaterialInstanceInfo { model_id: MaterialModelId(1), parameters: MaterialParameterBuffer::empty() },
        MaterialInstanceInfo { model_id: MaterialModelId(2), parameters: MaterialParameterBuffer::new(vec![1u8, 2]) },
    ];
    let layout = GpuMaterialLayout::build(&instances);
    assert_eq!(layout.descriptors[0].param_offset, 0);
    assert_eq!(layout.descriptors[1].param_offset, 32);
    assert_eq!(layout.descriptors[1].param_size, 0);
    assert_eq!(layout.descriptors[2].param_offset, 32);
    assert_eq!(layout.storage_size(), 48);
    assert_eq!(&layout.parameter_storage[32..34], &[1, 2]);
    assert!(layout.parameter_storage[17..32].iter().all(|&b| b == 0));
    assert_eq!(layout.descriptor_size(), 48);
}

#[test]
fn checked_total_parameter_bytes_sums() {
    let mut reg: AcousticMaterialRegistry<Tabular8BandEvaluator> = AcousticMaterialRegistry::new();
    assert_eq!(reg.checked_total_parameter_bytes(), Some(0));
    reg.add_instance(AcousticMaterialInstance::new(MaterialModelId(1), MaterialParameterBuffer::new(vec![0u8; 96])));
    reg.add_instance(AcousticMaterialInstance::new(MaterialModelId(2), MaterialParameterBuffer::new(vec![0u8; 8])));
    assert_eq!(reg.checked_total_parameter_bytes(), Some(104));
    assert_eq!(reg.total_parameter_bytes(), 104);
}

#[test]
fn gpu_layout_pads_each_block() {
    let infos = vec![
        MaterialInstanceInfo { model_id: MaterialModelId(1), parameters: MaterialParameterBuffer::new(vec![1u8; 96]) },
        MaterialInstanceInfo { model_id: MaterialModelId(2), parameters: MaterialParameterBuffer::new(vec![2u8; 8]) },
        MaterialInstanceInfo { model_id: MaterialModelId(3), parameters: MaterialParameterBuffer::new(vec![3u8; 17]) },
    ];
    // 96 stays aligned, 8 pads to 16, 17 pads to 32.
    let layout = GpuMaterialLayout::build(&infos);
    assert_eq!(layout.storage_size(), 144);
    let offsets: Vec<u32> = layout.descriptors.iter().map(|d| d.param_offset).collect();
    assert_eq!(offsets, vec![0, 96, 112]);
    let sizes: Vec<u32> = layout.descriptors.iter().map(|d| d.param_size).collect();
    assert_eq!(sizes, vec![96, 8, 17]);
    assert_eq!(layout.parameter_storage[96..104], [2u8; 8]);
    assert_eq!(layout.parameter_storage[104..112], [0u8; 8]);
    assert_eq!(GpuMaterialLayout::build(&[]).storage_size(), 0);
}
