use keero_core::models::{
    compose_model_status, default_models, download_script, format_size, guess_model_type,
    join_repo_id, model_cache_dir_name, parse_model_dir_name, total_size, u64_to_dec,
};

#[test]
fn sizes_below_one_kibibyte_are_plain_counts() {
    assert_eq!(format_size(0), "0 B");
    assert_eq!(format_size(512), "512 B");
    assert_eq!(format_size(1023), "1023 B");
}

#[test]
fn sizes_scale_to_the_largest_unit() {
    assert_eq!(format_size(1024), "1.00 KB");
    assert_eq!(format_size(1536), "1.50 KB");
    assert_eq!(format_size(1048576), "1.00 MB");
    assert_eq!(format_size(1572864), "1.50 MB");
    assert_eq!(format_size(1073741824), "1.00 GB");
    assert_eq!(format_size(1610612736), "1.50 GB");
}

#[test]
fn size_fraction_rounds_to_the_nearest_hundredth() {
    // 1029 / 1024 = 1.00488...: rounds down.
    assert_eq!(format_size(1029), "1.00 KB");
    // 1030 / 1024 = 1.00586...: rounds up.
    assert_eq!(format_size(1030), "1.01 KB");
}

#[test]
fn decimal_rendering_is_exact() {
    assert_eq!(u64_to_dec(0), "0");
    assert_eq!(u64_to_dec(7), "7");
    assert_eq!(u64_to_dec(10), "10");
    assert_eq!(u64_to_dec(90210), "90210");
    assert_eq!(u64_to_dec(u64::MAX), "18446744073709551615");
}

#[test]
fn model_type_is_guessed_from_the_identifier() {
    assert_eq!(guess_model_type("mlx-community/whisper-large-v3-turbo"), "stt");
    assert_eq!(guess_model_type("mlx-community/chatterbox-turbo-fp16"), "tts");
    assert_eq!(guess_model_type("org/some-tts-voice"), "tts");
    assert_eq!(guess_model_type("mlx-community/Ministral-3-3B-Instruct-2512-4bit"), "llm");
}

#[test]
fn model_type_guess_is_case_insensitive() {
    assert_eq!(guess_model_type("ORG/WHISPER-BIG"), "stt");
    assert_eq!(guess_model_type("Org/ChatterBox"), "tts");
    assert_eq!(guess_model_type("ORG/STT-thing"), "stt");
}

#[test]
fn cache_directory_names_round_trip() {
    assert_eq!(model_cache_dir_name("org/repo"), "models--org--repo");
    assert_eq!(
        model_cache_dir_name("mlx-community/whisper-large-v3-turbo"),
        "models--mlx-community--whisper-large-v3-turbo"
    );
    let (org, repo) = parse_model_dir_name("models--org--repo").unwrap();
    assert_eq!(org, "org");
    assert_eq!(repo, "repo");
    assert_eq!(join_repo_id(&org, &repo), "org/repo");
}

#[test]
fn cache_directory_parse_rejects_foreign_names() {
    assert_eq!(parse_model_dir_name("datasets--org--repo"), None);
    assert_eq!(parse_model_dir_name("models--norepo"), None);
}

#[test]
fn model_status_aggregates_downloads() {
    let mut models = default_models();
    assert_eq!(models.len(), 3);
    assert_eq!(models[0].id, "stt");
    assert_eq!(models[0].repo_id, "mlx-community/whisper-large-v3-turbo");
    assert_eq!(models[1].id, "llm");
    assert_eq!(models[1].repo_id, "mlx-community/Ministral-3-3B-Instruct-2512-4bit");
    assert_eq!(models[2].id, "tts");
    assert_eq!(models[2].repo_id, "mlx-community/chatterbox-turbo-fp16");
    assert!(models.iter().all(|m| !m.downloaded && m.size_estimate.is_none()));

    let status = compose_model_status(models.clone());
    assert!(!status.all_downloaded);

    for m in models.iter_mut() {
        m.downloaded = true;
    }
    let status = compose_model_status(models);
    assert!(status.all_downloaded);

    let status = compose_model_status(Vec::new());
    assert!(status.all_downloaded);
}

#[test]
fn directory_sizes_sum_and_saturate() {
    assert_eq!(total_size(&vec![]), 0);
    assert_eq!(total_size(&vec![1, 2, 3]), 6);
    assert_eq!(total_size(&vec![u64::MAX, 5]), u64::MAX);
}

#[test]
fn download_script_embeds_the_identifier() {
    assert_eq!(
        download_script(&"org/repo".to_string()),
        "from huggingface_hub import snapshot_download; snapshot_download(repo_id=\"org/repo\")"
    );
}
