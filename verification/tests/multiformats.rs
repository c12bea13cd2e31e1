use std::convert::TryFrom;
use std::path::PathBuf;
use cid::Cid;
use cid::multihash::Multihash;
use holium_utils::multiformats::{blake3_hash_to_multihash, cid_to_object_path, object_path_to_cid, path_to_cid,
    cid_to_path, compute_cid, storage_cid_to_object_path, storage_object_path, storage_object_path_to_cid,
    BLAKE3_HASH_FUNC_TYPE, Error, StorageError, cid_display_string, cid_base32_string};
use holium_utils::local_helpers::BlockMulticodec;

fn components(path: &PathBuf) -> Vec<String> {
    path.iter().map(|c| c.to_string_lossy().to_string()).collect()
}

#[test]
fn can_get_multihash_from_blake3_hash() {
    let hash = [0x42 as u8; 32];
    let multihash_bytes = blake3_hash_to_multihash(hash.clone()).unwrap();
    let multihash = Multihash::from_bytes(&multihash_bytes).unwrap();
    assert_eq!(multihash.code(), BLAKE3_HASH_FUNC_TYPE as u64);
    assert_eq!(multihash.size(), 0x20);
    assert_eq!(*multihash.digest(), hash[..]);
}

#[test]
fn mod_test_cid_to_object_path() {
    let cid = Cid::try_from("bafir4idbvg7rb4h75xd5y52ytlrkwtfibmagzadomy3oig3aiegnr4f3yq").unwrap();
    let path = PathBuf::from(cid_to_object_path(&cid.to_bytes()).unwrap());
    assert_eq!(path, PathBuf::new().join("3y").join("afir4idbvg7rb4h75xd5y52ytlrkwtfibmagzadomy3oig3aiegnr4f3yq"));
    // the repository storage splits the text of the CID after its ninth character
    let path = PathBuf::from_iter(storage_cid_to_object_path(&cid.to_bytes()).unwrap());
    assert_eq!(path, PathBuf::new().join("objects").join("bafir4idb").join("vg7rb4h75xd5y52ytlrkwtfibmagzadomy3oig3aiegnr4f3yq"))
}

#[test]
fn mod_test_object_path_to_cid() {
    let path = PathBuf::new().join("3y").join("afir4idbvg7rb4h75xd5y52ytlrkwtfibmagzadomy3oig3aiegnr4f3yq");
    let cid = object_path_to_cid(&components(&path)).unwrap();
    assert_eq!(cid, Cid::try_from("bafir4idbvg7rb4h75xd5y52ytlrkwtfibmagzadomy3oig3aiegnr4f3yq").unwrap().to_bytes());
    // in the repository storage
    let path = PathBuf::new().join("objects").join("bafir4idb").join("vg7rb4h75xd5y52ytlrkwtfibmagzadomy3oig3aiegnr4f3yq");
    let text = path.to_string_lossy().to_string();
    let cid = storage_object_path_to_cid(&components(&path), &text).unwrap();
    assert_eq!(cid, Cid::try_from("bafir4idbvg7rb4h75xd5y52ytlrkwtfibmagzadomy3oig3aiegnr4f3yq").unwrap().to_bytes())
}

#[test]
fn mod_test_cid_to_object_path_to_cid() {
    let cid = Cid::try_from("bafir4idbvg7rb4h75xd5y52ytlrkwtfibmagzadomy3oig3aiegnr4f3yq").unwrap();
    assert_eq!(
        cid.to_bytes(),
        object_path_to_cid(&components(&PathBuf::from(cid_to_object_path(&cid.to_bytes()).unwrap()))).unwrap()
    );
    // in the repository storage
    assert_eq!(
        cid.to_bytes(),
        storage_object_path_to_cid(&storage_cid_to_object_path(&cid.to_bytes()).unwrap(), "").unwrap()
    )
}

#[test]
fn storage_paths_of_version_0_cids_and_wrong_paths() {
    let cid = Cid::try_from("QmdfTbBqBPQ7VNxZEYEj14VmRuZBkqFbiwReogJgS1zR1n").unwrap();
    let path = storage_object_path(&cid.to_bytes()).unwrap();
    assert_eq!(path, vec!["objects".to_string(), "QmdfTbBqB".to_string(), "PQ7VNxZEYEj14VmRuZBkqFbiwReogJgS1zR1n".to_string()]);
    assert_eq!(storage_object_path_to_cid(&path, "").unwrap(), cid.to_bytes());
    assert!(storage_object_path(&[1, 2, 3]).is_none());
    assert!(matches!(storage_object_path_to_cid(&vec!["x".to_string()], "x"), Err(StorageError::WrongObjectPath(p)) if p == "x"));
    assert!(matches!(storage_object_path_to_cid(&vec!["a".to_string(), "..".to_string()], "a/.."), Err(StorageError::WrongObjectPath(_))));
    assert!(matches!(storage_object_path_to_cid(&vec!["objects".to_string(), "not".to_string(), "acid".to_string()], ""),
        Err(StorageError::FailedToParseCid(t)) if t == "notacid"));
    assert_eq!(StorageError::WrongObjectPath("p".to_string()).message(), "wrong local object path : p");
    assert_eq!(StorageError::OutsideHoliumRepo.message(), "this command can only be run inside a Holium repository");
}

#[test]
fn paths_in_the_interplanetary_directory() {
    let dir = vec!["/".to_string(), "repo".to_string(), ".holium".to_string(), "interplanetary".to_string()];
    let cid = Cid::try_from("bafir4idbvg7rb4h75xd5y52ytlrkwtfibmagzadomy3oig3aiegnr4f3yq").unwrap();
    let path = cid_to_path(&cid.to_bytes(), &dir).unwrap();
    assert_eq!(path.len(), 6);
    assert_eq!(path[4], "3y");
    assert_eq!(path_to_cid(&path, &dir).unwrap(), cid.to_bytes());
    let elsewhere = vec!["/".to_string(), "tmp".to_string(), "3y".to_string(), path[5].clone()];
    assert!(matches!(path_to_cid(&elsewhere, &dir), Err(Error::CidFromPathError)));
    assert!(matches!(object_path_to_cid(&vec!["..".to_string()]), Err(Error::CidFromPathError)));
    assert!(matches!(object_path_to_cid(&vec![]), Err(Error::CidFromPathError)));
}

#[test]
fn block_cids_are_blake3_version_1() {
    let content = b"some block";
    let cid_bytes = compute_cid(content, &BlockMulticodec::Raw).unwrap();
    let cid = Cid::try_from(cid_bytes.as_slice()).unwrap();
    assert_eq!(cid.codec(), 0x55);
    assert_eq!(cid.hash().code(), 0x1e);
    assert_eq!(cid.hash().digest(), blake3::hash(content).as_bytes());
    let other = compute_cid(content, &BlockMulticodec::DagCbor).unwrap();
    assert_ne!(other, cid_bytes);
}

#[test]
fn multiformats_error_messages() {
    assert_eq!(Error::CidFromPathError.message(), "failed to parse block path as cid");
    assert_eq!(Error::WrongObjectPath("p".to_string()).message(), "wrong local object path : p");
}

#[test]
fn cid_texts_in_both_forms() {
    let cid = Cid::try_from("QmdfTbBqBPQ7VNxZEYEj14VmRuZBkqFbiwReogJgS1zR1n").unwrap();
    assert_eq!(cid_display_string(&cid.to_bytes()), Some("QmdfTbBqBPQ7VNxZEYEj14VmRuZBkqFbiwReogJgS1zR1n".to_string()));
    assert_eq!(cid_base32_string(&cid.to_bytes()), None);
    let cid = Cid::try_from("bafir4idbvg7rb4h75xd5y52ytlrkwtfibmagzadomy3oig3aiegnr4f3yq").unwrap();
    assert_eq!(cid_base32_string(&cid.to_bytes()), Some("bafir4idbvg7rb4h75xd5y52ytlrkwtfibmagzadomy3oig3aiegnr4f3yq".to_string()));
    assert_eq!(cid_display_string(&[1, 2]), None);
}
