use hopfield_memory::codec::{from_bytes, to_bytes};
use hopfield_memory::hopfield::{hopfield_net_init, HopfieldNet, Progress, DEFAULT_BETA_BITS, MAX_ITERATIONS};
use hopfield_memory::matrix::{Matrix, MemoryError};
use hopfield_memory::store::{document, find, get, get_all_embeddings, Document};

fn bits(v: &[f32]) -> Vec<u32> {
    v.iter().map(|x| x.to_bits()).collect()
}

fn floats(v: &[u32]) -> Vec<f32> {
    v.iter().map(|b| f32::from_bits(*b)).collect()
}

fn stub_embed(text: &str) -> Vec<u32> {
    match text {
        "a" => bits(&[1.0, 0.0]),
        "b" => bits(&[-1.0, 0.0]),
        _ => bits(&[0.6, 0.8]),
    }
}

// softmax(beta * q * X^T) * X for a single query row, stabilised by the maximum.
fn update(net: &HopfieldNet, q: &[u32]) -> Vec<u32> {
    let beta = f32::from_bits(net.beta());
    let rows: Vec<Vec<f32>> = net.memory().to_rows().iter().map(|r| floats(r)).collect();
    let q = floats(q);
    let sims: Vec<f32> = rows
        .iter()
        .map(|r| beta * r.iter().zip(q.iter()).map(|(a, b)| a * b).sum::<f32>())
        .collect();
    let max = sims.iter().cloned().fold(sims[0], f32::max);
    let logits: Vec<f32> = sims.iter().map(|s| (s - max).exp()).collect();
    let sum: f32 = logits.iter().sum();
    let mut out = vec![0.0f32; q.len()];
    for (w, r) in logits.iter().zip(rows.iter()) {
        for k in 0..out.len() {
            out[k] += (w / sum) * r[k];
        }
    }
    bits(&out)
}

fn converge(net: &HopfieldNet, query: Vec<u32>) -> Result<Vec<u32>, MemoryError> {
    let mut c = net.start(query)?;
    loop {
        let next = update(net, c.current());
        match c.advance(next) {
            Progress::Converged => return Ok(c.current().clone()),
            Progress::NotConverged => return Err(MemoryError::NotConverged),
            Progress::NotANumber => return Err(MemoryError::NotANumber),
            Progress::Continue => {}
        }
    }
}

fn add_documents(docs: &mut Vec<Document>, net: &mut HopfieldNet, texts: &[&str]) {
    for t in texts {
        docs.push(document(&stub_embed(t), t.to_string()));
    }
    let blobs: Vec<Vec<u8>> = docs.iter().map(|d| d.embedding.clone()).collect();
    net.reinit(get_all_embeddings(&blobs).unwrap());
}

fn search(docs: &Vec<Document>, net: &HopfieldNet, text: &str) -> Result<Option<String>, MemoryError> {
    let v = converge(net, stub_embed(text))?;
    Ok(get(docs, &v))
}

#[test]
fn search_after_adding_returns_the_document() {
    let mut docs = Vec::new();
    let mut net = hopfield_net_init(Matrix::empty(), None);
    add_documents(&mut docs, &mut net, &["a", "b"]);
    assert_eq!(net.memory().n_rows(), 2);
    assert_eq!(search(&docs, &net, "a"), Ok(Some("a".to_string())));
    assert_eq!(search(&docs, &net, "b"), Ok(Some("b".to_string())));
}

#[test]
fn search_on_empty_store_is_empty_memory() {
    let docs: Vec<Document> = Vec::new();
    let net = hopfield_net_init(get_all_embeddings(&Vec::new()).unwrap(), None);
    assert_eq!(search(&docs, &net, "a"), Err(MemoryError::EmptyMemory));
}

#[test]
fn converge_on_stored_row_returns_it() {
    let mut docs = Vec::new();
    let mut net = hopfield_net_init(Matrix::empty(), None);
    add_documents(&mut docs, &mut net, &["a", "b"]);
    let row = net.memory().row(0);
    assert_eq!(converge(&net, row.clone()), Ok(row));
}

#[test]
fn converge_is_idempotent() {
    let mut docs = Vec::new();
    let mut net = hopfield_net_init(Matrix::empty(), None);
    add_documents(&mut docs, &mut net, &["a", "b"]);
    let once = converge(&net, stub_embed("c")).unwrap();
    assert_eq!(converge(&net, once.clone()), Ok(once));
}

#[test]
fn bytes_are_little_endian() {
    assert_eq!(to_bytes(&bits(&[1.0])), vec![0x00, 0x00, 0x80, 0x3f]);
    assert_eq!(to_bytes(&vec![0x0403_0201, 0xa0b0_c0d0]), vec![1, 2, 3, 4, 0xd0, 0xc0, 0xb0, 0xa0]);
    assert_eq!(to_bytes(&Vec::new()), Vec::<u8>::new());
}

#[test]
fn bytes_round_trip() {
    let v = bits(&[0.0, -0.0, 1.5, -2.25e-7, f32::MAX, f32::MIN_POSITIVE, f32::INFINITY]);
    let back = from_bytes(&to_bytes(&v)).unwrap();
    assert_eq!(back, v);
    assert_eq!(floats(&back)[2], 1.5);
    let nan = vec![f32::NAN.to_bits()];
    assert_eq!(from_bytes(&to_bytes(&nan)), Ok(nan));
}

#[test]
fn partial_record_is_a_dimension_mismatch() {
    assert_eq!(from_bytes(&[0x00, 0x00, 0x80, 0x3f, 0x01]), Err(MemoryError::DimensionMismatch));
    assert_eq!(from_bytes(&[1, 2, 3]), Err(MemoryError::DimensionMismatch));
    assert_eq!(from_bytes(&[0x00, 0x00, 0x80, 0x3f]), Ok(vec![0x3f80_0000]));
    assert_eq!(from_bytes(&[]), Ok(Vec::new()));
}

#[test]
fn matrix_rows_must_share_width() {
    assert_eq!(Matrix::from_rows(vec![vec![1, 2], vec![3]]).err(), Some(MemoryError::DimensionMismatch));
    let m = Matrix::from_rows(vec![vec![1, 2], vec![3, 4]]).unwrap();
    assert_eq!(m.n_rows(), 2);
    assert_eq!(m.n_cols(), 2);
    assert_eq!(m.to_rows(), vec![vec![1, 2], vec![3, 4]]);
    let e = Matrix::from_rows(Vec::new()).unwrap();
    assert_eq!(e.n_rows(), 0);
    assert_eq!(e.n_cols(), 0);
}

#[test]
fn all_embeddings_reports_errors() {
    assert_eq!(get_all_embeddings(&vec![vec![0, 0, 0]]).err(), Some(MemoryError::DimensionMismatch));
    assert_eq!(get_all_embeddings(&vec![vec![0; 4], vec![0; 6]]).err(), Some(MemoryError::DimensionMismatch));
    let e = get_all_embeddings(&Vec::new()).unwrap();
    assert_eq!(e.n_rows(), 0);
    assert_eq!(e.n_cols(), 0);
    assert_eq!(
        get_all_embeddings(&vec![vec![0; 8], vec![0; 4]]).err(),
        Some(MemoryError::DimensionMismatch)
    );
    let m = get_all_embeddings(&vec![to_bytes(&vec![7, 8]), to_bytes(&vec![9, 10])]).unwrap();
    assert_eq!(m.to_rows(), vec![vec![7, 8], vec![9, 10]]);
}

#[test]
fn lookup_is_byte_exact_and_takes_the_first() {
    let docs = vec![
        document(&bits(&[1.0, 2.0]), "first".to_string()),
        document(&bits(&[3.0, 4.0]), "other".to_string()),
        document(&bits(&[1.0, 2.0]), "second".to_string()),
    ];
    assert_eq!(find(&docs, &bits(&[1.0, 2.0])), Some(0));
    assert_eq!(get(&docs, &bits(&[1.0, 2.0])), Some("first".to_string()));
    assert_eq!(get(&docs, &bits(&[3.0, 4.0])), Some("other".to_string()));
    assert_eq!(get(&docs, &bits(&[1.0, 2.0000002])), None);
    assert_eq!(get(&docs, &bits(&[-0.0, 2.0])), None);
    assert_eq!(get(&Vec::new(), &bits(&[1.0])), None);
}

#[test]
fn beta_defaults_to_one_hundred() {
    let net = hopfield_net_init(Matrix::empty(), None);
    assert_eq!(f32::from_bits(net.beta()), 100.0);
    assert_eq!(DEFAULT_BETA_BITS, 100.0f32.to_bits());
    let net = hopfield_net_init(Matrix::empty(), Some(2.5f32.to_bits()));
    assert_eq!(f32::from_bits(net.beta()), 2.5);
}

#[test]
fn start_checks_memory_and_dimension() {
    let net = hopfield_net_init(Matrix::empty(), None);
    assert_eq!(net.start(vec![1, 2]).err(), Some(MemoryError::EmptyMemory));
    let net = hopfield_net_init(Matrix::from_rows(vec![vec![1, 2]]).unwrap(), None);
    assert_eq!(net.start(vec![1, 2, 3]).err(), Some(MemoryError::DimensionMismatch));
    let c = net.start(vec![5, 6]).unwrap();
    assert_eq!(c.current(), &vec![5, 6]);
}

#[test]
fn advance_decides_each_step() {
    let net = hopfield_net_init(Matrix::from_rows(vec![vec![1, 2]]).unwrap(), None);
    let mut c = net.start(vec![5, 6]).unwrap();
    assert_eq!(c.advance(vec![7, 8]), Progress::Continue);
    assert_eq!(c.current(), &vec![7, 8]);
    assert_eq!(c.advance(vec![7, 8]), Progress::Converged);
    assert_eq!(c.current(), &vec![7, 8]);
}

#[test]
fn nan_iterate_is_reported() {
    let net = hopfield_net_init(Matrix::from_rows(vec![vec![1, 2]]).unwrap(), None);
    let mut c = net.start(vec![5, 6]).unwrap();
    assert_eq!(c.advance(vec![f32::NAN.to_bits(), 6]), Progress::NotANumber);
    assert_eq!(c.current(), &vec![5, 6]);
    let mut c = net.start(vec![0x7fc0_0000, 6]).unwrap();
    assert_eq!(c.advance(vec![0x7fc0_0000, 6]), Progress::NotANumber);
    let mut c = net.start(vec![0x7f80_0000, 6]).unwrap();
    assert_eq!(c.advance(vec![0x7f80_0000, 6]), Progress::Converged);
}

#[test]
fn oscillation_stops_at_the_cap() {
    let net = hopfield_net_init(Matrix::from_rows(vec![vec![1]]).unwrap(), None);
    let mut c = net.start(vec![0]).unwrap();
    let mut updates: usize = 0;
    loop {
        let next = vec![1 - c.current()[0]];
        updates += 1;
        match c.advance(next) {
            Progress::Continue => {}
            p => {
                assert_eq!(p, Progress::NotConverged);
                break;
            }
        }
    }
    assert_eq!(updates, MAX_ITERATIONS);
}

#[test]
fn reinit_replaces_the_patterns() {
    let mut net = hopfield_net_init(Matrix::empty(), Some(7));
    net.reinit(Matrix::from_rows(vec![vec![1, 2], vec![3, 4]]).unwrap());
    assert_eq!(net.memory().to_rows(), vec![vec![1, 2], vec![3, 4]]);
    assert_eq!(net.beta(), 7);
}
