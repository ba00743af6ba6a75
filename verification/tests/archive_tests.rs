use base64::Engine;
use cipher::{BlockEncryptMut, KeyIvInit};
use sound_manager_core::archive::soundpack::{
    convert, decrypt_metadata_xml, decrypt_zip_layer, is_proprietary, pick_tag, FILE_EXTENSION as PACK_EXT,
};
use sound_manager_core::archive::ths::{export, import, FileAction, FILE_EXTENSION};
use sound_manager_core::domain::scheme_meta::SchemeMeta;
use sound_manager_core::domain::sound_event::all_events;
use sound_manager_core::errors::CoreError;
use std::io::{Cursor, Read, Write};

const ZIP_AES_KEY: [u8; 16] = [
    0x43, 0x6f, 0x70, 0x79, 0x72, 0x69, 0x67, 0x68, 0x74, 0x3f, 0x53, 0x74, 0x61, 0x72, 0x64, 0x6f,
];
const ZIP_AES_IV: [u8; 16] = [
    0x7d, 0x2a, 0x7e, 0x61, 0x70, 0x3f, 0x3f, 0x3f, 0x53, 0x74, 0x61, 0x72, 0x64, 0x6f, 0x63, 0x6b,
];
const XML_3DES_KEY: [u8; 24] = [
    0x3f, 0x43, 0x6f, 0x70, 0x79, 0x72, 0x69, 0x67, 0x68, 0x74, 0x53, 0x74, 0x61, 0x72, 0x64, 0x6f,
    0x63, 0x6b, 0x32, 0x30, 0x30, 0x38, 0x3f, 0x3f,
];
const XML_3DES_IV: [u8; 8] = [0x7d, 0x6c, 0x60, 0x3f, 0x2a, 0x7e, 0x61, 0x70];

fn make_zip(entries: &[(&str, &[u8])]) -> Vec<u8> {
    let mut zw = zip::ZipWriter::new(Cursor::new(Vec::new()));
    let opts: zip::write::SimpleFileOptions =
        zip::write::SimpleFileOptions::default().compression_method(zip::CompressionMethod::Deflated);
    for (name, data) in entries {
        zw.start_file(*name, opts).unwrap();
        zw.write_all(data).unwrap();
    }
    zw.finish().unwrap().into_inner()
}

fn read_zip(bytes: &[u8]) -> Vec<(String, Vec<u8>)> {
    let mut z = zip::ZipArchive::new(Cursor::new(bytes)).unwrap();
    let mut out = Vec::new();
    for i in 0..z.len() {
        let mut f = z.by_index(i).unwrap();
        let mut buf = Vec::new();
        f.read_to_end(&mut buf).unwrap();
        out.push((f.name().to_string(), buf));
    }
    out
}

fn silence_wav() -> Vec<u8> {
    let spec = hound::WavSpec { channels: 1, sample_rate: 8000, bits_per_sample: 16, sample_format: hound::SampleFormat::Int };
    let mut wav_buf = Vec::new();
    {
        let mut w = hound::WavWriter::new(Cursor::new(&mut wav_buf), spec).unwrap();
        for _ in 0..8000 {
            w.write_sample(0i16).unwrap();
        }
        w.finalize().unwrap();
    }
    wav_buf
}

fn written(plan: &[FileAction], name: &str) -> Option<Vec<u8>> {
    plan.iter().find_map(|a| match a {
        FileAction::Write { name: n, data } if n == name => Some(data.clone()),
        _ => None,
    })
}

fn removed(plan: &[FileAction], name: &str) -> bool {
    plan.iter().any(|a| matches!(a, FileAction::Remove { name: n } if n == name))
}

#[test]
fn import_export_roundtrip() {
    let wav = silence_wav();
    let ini = "[SchemeInfo]\r\nname=Test Scheme\r\nauthor=T\r\nabout=X\r\n";
    let zip_bytes = make_zip(&[("Startup.wav", wav.as_slice()), ("Scheme.ini", ini.as_bytes())]);

    let plan = import(&zip_bytes).unwrap();
    let ini_written = written(&plan, "Scheme.ini").unwrap();
    let meta = SchemeMeta::load(Some(ini_written.as_slice()), None);
    assert_eq!(meta.name, "Test Scheme");
    assert_eq!(written(&plan, "Startup.wav"), Some(wav.clone()));
    assert!(removed(&plan, "Shutdown.wav"));

    // Export must produce a valid zip containing Startup.wav
    let events = all_events();
    let files: Vec<Option<Vec<u8>>> = events
        .iter()
        .map(|e| if e.internal_name == "Startup" { Some(wav.clone()) } else { None })
        .collect();
    let out = export(&files, Some(&ini_written), None).unwrap();
    let mut z = zip::ZipArchive::new(Cursor::new(out)).unwrap();
    assert!(z.by_name("Startup.wav").is_ok());
}

#[test]
fn import_plan_shape() {
    let plan = import(&make_zip(&[])).unwrap();
    // one action per event, nothing for the metadata files
    assert_eq!(plan.len(), 32);
    assert!(plan.iter().all(|a| matches!(a, FileAction::Remove { .. })));
}

#[test]
fn import_legacy_names() {
    let bmp = b"BMfake".to_vec();
    let zip_bytes = make_zip(&[
        ("Windows XP Démarrage.wav", b"legacy"),
        ("visuel.bmp", bmp.as_slice()),
        ("infos.ini", b"nom=Ancien"),
    ]);
    let plan = import(&zip_bytes).unwrap();
    assert_eq!(written(&plan, "Startup.wav"), Some(b"legacy".to_vec()));
    assert_eq!(written(&plan, "Scheme.png"), Some(bmp));
    assert_eq!(written(&plan, "Scheme.ini"), Some(b"nom=Ancien".to_vec()));
    // the image comes before the metadata file, after the events
    let n = plan.len();
    assert!(matches!(&plan[n - 2], FileAction::Write { name, .. } if name == "Scheme.png"));
    assert!(matches!(&plan[n - 1], FileAction::Write { name, .. } if name == "Scheme.ini"));
}

#[test]
fn import_not_a_zip_is_zip_error() {
    assert!(matches!(import(b"definitely not a zip archive"), Err(CoreError::Zip(_))));
}

#[test]
fn export_then_import_restores_folder() {
    let events = all_events();
    let mut files: Vec<Option<Vec<u8>>> = vec![None; events.len()];
    files[0] = Some(b"start".to_vec());
    files[3] = Some(b"off".to_vec());
    files[30] = Some(Vec::new());
    let info = b"[SchemeInfo]\r\nname=R\r\n".to_vec();
    let image = b"\x89PNG....".to_vec();
    let out = export(&files, Some(&info), Some(&image)).unwrap();
    let names: Vec<String> = read_zip(&out).into_iter().map(|(n, _)| n).collect();
    assert_eq!(names, vec!["Startup.wav", "Logoff.wav", "LoadScheme.wav", "Scheme.ini", "Scheme.png"]);
    let plan = import(&out).unwrap();
    assert_eq!(plan.len(), 34);
    for (i, ev) in events.iter().enumerate() {
        match (&files[i], &plan[i]) {
            (Some(d), FileAction::Write { name, data }) => {
                assert_eq!(name, &ev.file_name());
                assert_eq!(data, d);
            }
            (None, FileAction::Remove { name }) => assert_eq!(name, &ev.file_name()),
            _ => panic!("unexpected action for {}", ev.internal_name),
        }
    }
    assert_eq!(written(&plan, "Scheme.png"), Some(image));
    assert_eq!(written(&plan, "Scheme.ini"), Some(info));
}

#[test]
fn extensions() {
    assert_eq!(FILE_EXTENSION, "ths");
    assert_eq!(PACK_EXT, "soundpack");
    assert!(is_proprietary("C:\\x\\Pack.SoundPack"));
    assert!(is_proprietary("a/b.soundpack/"));
    assert!(!is_proprietary("a.soundpack.zip"));
    assert!(!is_proprietary(".soundpack"));
    assert!(!is_proprietary("soundpack"));
}

fn aes_encrypt(plain: &[u8]) -> Vec<u8> {
    cbc::Encryptor::<aes::Aes128>::new((&ZIP_AES_KEY).into(), (&ZIP_AES_IV).into())
        .encrypt_padded_vec_mut::<cipher::block_padding::Pkcs7>(plain)
}

fn metadata_base64(xml: &str) -> String {
    let enc = cbc::Encryptor::<des::TdesEde3>::new((&XML_3DES_KEY).into(), (&XML_3DES_IV).into())
        .encrypt_padded_vec_mut::<cipher::block_padding::Pkcs7>(xml.as_bytes());
    base64::engine::general_purpose::STANDARD.encode(enc)
}

#[test]
fn zip_layer_passthrough_and_decrypt() {
    let z = make_zip(&[("a.wav", b"x")]);
    assert_eq!(decrypt_zip_layer(&z).unwrap(), z);
    let enc = aes_encrypt(&z);
    assert_eq!(decrypt_zip_layer(&enc).unwrap(), z);
    assert!(matches!(decrypt_zip_layer(b"short"), Err(CoreError::Archive(m)) if m == "invalid soundpack AES layer"));
}

#[test]
fn metadata_decryption() {
    let b64 = metadata_base64("<SchemeName>Old</SchemeName>");
    assert_eq!(decrypt_metadata_xml(&format!("  {b64}\r\n")).unwrap(), "<SchemeName>Old</SchemeName>");
    assert!(matches!(decrypt_metadata_xml("@@@"), Err(CoreError::Archive(m)) if m.starts_with("metadata base64: ")));
    assert!(matches!(decrypt_metadata_xml("AAAA"), Err(CoreError::Archive(m)) if m == "invalid soundpack metadata 3DES"));
}

#[test]
fn pick_tag_cases() {
    let xml = "<a><SchemeName>Pack</SchemeName><Author>Me</Author><Description></Description>";
    assert_eq!(pick_tag(xml, "SchemeName"), "Pack");
    assert_eq!(pick_tag(xml, "Author"), "Me");
    assert_eq!(pick_tag(xml, "Description"), "");
    assert_eq!(pick_tag(xml, "Missing"), "");
    assert_eq!(pick_tag("<X>open", "X"), "");
}

#[test]
fn convert_soundpack_to_ths() {
    let xml = "<Pack><SchemeName>Retro</SchemeName><Author>Bob</Author><Description>Old sounds</Description></Pack>";
    let inner = make_zip(&[
        ("Startup.wav", b"s1"),
        ("data/soundpackage.data", metadata_base64(xml).as_bytes()),
        ("Logon.wav", b"l1"),
    ]);
    let pack = aes_encrypt(&inner);
    let (ths, meta) = convert(&pack).unwrap();
    assert_eq!(meta.as_deref(), Some(xml));
    let entries = read_zip(&ths);
    assert_eq!(
        entries,
        vec![
            ("Startup.wav".to_string(), b"s1".to_vec()),
            ("Logon.wav".to_string(), b"l1".to_vec()),
            ("Scheme.ini".to_string(), b"[SchemeInfo]\r\nname=Retro\r\nauthor=Bob\r\nabout=Old sounds\r\n".to_vec()),
        ]
    );
}

#[test]
fn convert_without_metadata() {
    let inner = make_zip(&[("Startup.wav", b"s1"), ("soundpackage.data", b"not base64 !")]);
    let (ths, meta) = convert(&inner).unwrap();
    assert_eq!(meta, None);
    assert_eq!(read_zip(&ths), vec![("Startup.wav".to_string(), b"s1".to_vec())]);
}

#[test]
fn convert_errors() {
    assert!(matches!(convert(b"0123456789abcdef0"), Err(CoreError::Archive(_))));
    // a valid AES layer around something that is not a zip
    let enc = aes_encrypt(b"no zip here");
    assert!(matches!(convert(&enc), Err(CoreError::Zip(_))));
}
