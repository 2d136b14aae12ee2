//! The output of a retrain cycle: a diagonal weight matrix with a checksum.

use vstd::prelude::*;
use vstd::string::*;

use sha2::Digest;

use super::weights::{listed, WeightModel, WeightsView};
use crate::paths::{join_path, seen_from, PathStyle};
use crate::text::{
    copy_names, decimal, decimal_is_injective, decimal_text, hex_is_injective, hex_lower, hex_text,
};

verus! {

/// A moment of time, in UTC.
#[derive(Debug, Clone, Copy, PartialEq, Eq, Structural)]
pub struct Timestamp {
    /// Seconds since the start of 1970.
    pub seconds: i64,
    /// Nanoseconds since the last second boundary.
    pub nanos: u32,
}

/// A retrain artifact: the output of a successful retrain cycle.
#[derive(Debug)]
pub struct RetrainArtifact {
    /// Model ID this artifact is for.
    pub model_id: String,
    /// Model version.
    pub version: u64,
    /// Category names (row and column order of the weight matrix).
    pub categories: Vec<String>,
    /// Flattened square diagonal weight matrix, row after row: the bits of
    /// IEEE 754 singles. The diagonal holds the adjustment of every category.
    pub weight_matrix: Vec<u32>,
    /// SHA-256 checksum of the weight matrix bytes, in hexadecimal.
    pub checksum: String,
    /// When this artifact was created.
    pub created_at: Timestamp,
    /// Number of signals consumed to produce this artifact.
    pub signals_consumed: usize,
}

/// What a [`RetrainArtifact`] says.
#[verifier::ext_equal]
pub struct ArtifactView {
    pub model_id: Seq<char>,
    pub version: u64,
    pub categories: Seq<Seq<char>>,
    pub weight_matrix: Seq<u32>,
    pub checksum: Seq<char>,
    pub created_at: Timestamp,
    pub signals_consumed: usize,
}

impl View for RetrainArtifact {
    type V = ArtifactView;

    open spec fn view(&self) -> ArtifactView {
        ArtifactView {
            model_id: self.model_id@,
            version: self.version,
            categories: self.categories@.map_values(|c: String| c@),
            weight_matrix: self.weight_matrix@,
            checksum: self.checksum@,
            created_at: self.created_at,
            signals_consumed: self.signals_consumed,
        }
    }
}

impl Clone for RetrainArtifact {
    fn clone(&self) -> (r: Self)
        ensures
            r@ == self@,
    {
        RetrainArtifact {
            model_id: self.model_id.clone(),
            version: self.version,
            categories: copy_names(&self.categories),
            weight_matrix: self.weight_matrix.clone(),
            checksum: self.checksum.clone(),
            created_at: self.created_at,
            signals_consumed: self.signals_consumed,
        }
    }
}

/// Why an artifact was refused.
#[derive(Debug)]
pub enum ArtifactError {
    /// The checksum is not that of the weight matrix.
    Corrupt {
        /// The model that the artifact says it is for.
        model_id: String,
        /// The version that the artifact says it is.
        version: u64,
    },
}

impl ArtifactError {
    /// The error in words.
    pub fn message(&self) -> (r: String)
        ensures
            r@ == match *self {
                ArtifactError::Corrupt { model_id, version } => {
                    "artifact integrity check failed for "@ + model_id@ + " v"@ + decimal(
                        version as nat,
                    )
                },
            },
    {
        match self {
            ArtifactError::Corrupt { model_id, version } => {
                let mut text = "artifact integrity check failed for ".to_owned();
                text.append(model_id.as_str());
                text.append(" v");
                text.append(decimal_text(*version).as_str());
                text
            },
        }
    }
}

/// Where an artifact is kept.
#[derive(Debug)]
pub struct ArtifactPaths {
    /// The file of this version of the model.
    pub versioned: String,
    /// The file that holds the latest version of the model.
    pub latest: String,
}

/// The SHA-256 digest of `data`, as the crate `sha2` computes it.
pub uninterp spec fn sha256(data: Seq<u8>) -> Seq<u8>;

/// `sha2::Sha256::digest`. Its output is named by [`sha256`]: nothing is
/// claimed of it but that it depends on the data alone and is thirty-two bytes
/// long.
#[verifier::external_body]
fn sha256_digest(data: &[u8]) -> (r: Vec<u8>)
    ensures
        r@ == sha256(data@),
        r@.len() == 32,
{
    sha2::Sha256::digest(data).to_vec()
}

/// `chrono::Utc::now`, as seconds since the start of 1970 and nanoseconds. It
/// reads the clock of the machine, and panics where that clock stands before
/// 1970. Nothing is claimed of the moment but that it is not before 1970 and
/// that the nanoseconds are less than a second.
#[verifier::external_body]
fn utc_now() -> (r: Timestamp)
    ensures
        r.seconds >= 0,
        r.nanos < 1_000_000_000,
{
    let now = chrono::Utc::now();
    Timestamp { seconds: now.timestamp(), nanos: now.timestamp_subsec_nanos() }
}

/// The four bytes of a word, least significant first.
pub open spec fn word_bytes(word: u32) -> Seq<u8> {
    seq![
        (word % 0x100) as u8,
        (word / 0x100 % 0x100) as u8,
        (word / 0x1_0000 % 0x100) as u8,
        (word / 0x100_0000) as u8,
    ]
}

/// The bytes of a matrix, word after word.
pub open spec fn matrix_bytes(matrix: Seq<u32>) -> Seq<u8>
    decreases matrix.len(),
{
    if matrix.len() == 0 {
        seq![]
    } else {
        matrix_bytes(matrix.drop_last()) + word_bytes(matrix.last())
    }
}

/// The checksum that belongs to a matrix.
pub open spec fn matrix_checksum(matrix: Seq<u32>) -> Seq<char> {
    hex_lower(sha256(matrix_bytes(matrix)))
}

/// The row after row listing of the square matrix with the given diagonal.
pub open spec fn diagonal_matrix(diagonal: Seq<u32>) -> Seq<u32> {
    Seq::new(
        diagonal.len() * diagonal.len(),
        |k: int|
            if k / diagonal.len() as int == k % diagonal.len() as int {
                diagonal[k / diagonal.len() as int]
            } else {
                0
            },
    )
}

/// Whether `r` is the artifact of a model that holds `weights`: the categories
/// of the model in some order, the diagonal matrix of their weights, each one
/// brought to single precision by `narrow`, and its checksum.
pub open spec fn artifact_of<N: Fn(u64) -> u32>(
    r: RetrainArtifact,
    weights: WeightsView,
    model_id: Seq<char>,
    signals_consumed: usize,
    narrow: N,
) -> bool {
    &&& r.model_id@ == model_id
    &&& r.version == weights.version
    &&& r.signals_consumed == signals_consumed
    &&& r.categories@.len() == weights.listing_len
    &&& forall|category: Seq<char>| #[trigger]
        weights.categories.contains(category) <==> listed(r.categories@, category)
    &&& exists|diagonal: Seq<u32>|
        {
            &&& #[trigger] diagonal_matrix(diagonal) == r.weight_matrix@
            &&& diagonal.len() == r.categories@.len()
            &&& forall|i: int|
                0 <= i < diagonal.len() ==> call_ensures(
                    narrow,
                    ((weights.weight)(r.categories@[i]@),),
                    #[trigger] diagonal[i],
                )
        }
    &&& r.checksum@ == matrix_checksum(r.weight_matrix@)
}

/// Lists the bytes of a matrix.
fn bytes_of_matrix(matrix: &Vec<u32>) -> (r: Vec<u8>)
    ensures
        r@ == matrix_bytes(matrix@),
{
    let mut bytes: Vec<u8> = Vec::new();
    let mut i: usize = 0;
    while i < matrix.len()
        invariant
            i <= matrix@.len(),
            bytes@ == matrix_bytes(matrix@.take(i as int)),
        decreases matrix@.len() - i,
    {
        let word: u32 = matrix[i];
        let ghost before = bytes@;
        bytes.push((word % 0x100) as u8);
        bytes.push((word / 0x100 % 0x100) as u8);
        bytes.push((word / 0x1_0000 % 0x100) as u8);
        bytes.push((word / 0x100_0000) as u8);
        assert(bytes@ =~= before + word_bytes(word));
        assert(matrix@.take(i + 1).drop_last() =~= matrix@.take(i as int));
        i = i + 1;
    }
    assert(matrix@.take(i as int) =~= matrix@);
    bytes
}

/// Computes the checksum that belongs to a matrix.
fn checksum_of_matrix(matrix: &Vec<u32>) -> (r: String)
    ensures
        r@ == matrix_checksum(matrix@),
{
    let bytes = bytes_of_matrix(matrix);
    let digest = sha256_digest(bytes.as_slice());
    hex_text(digest.as_slice())
}

/// Where a row of a square matrix starts and ends, and what division says of
/// the places in it.
proof fn lemma_place(n: int, i: int, j: int)
    requires
        0 <= i < n,
        0 <= j < n,
    ensures
        (i * n + j) / n == i,
        (i * n + j) % n == j,
        0 <= i * n + j < n * n,
{
    assert((i * n + j) / n == i && (i * n + j) % n == j) by {
        vstd::arithmetic::div_mod::lemma_fundamental_div_mod_converse(i * n + j, n, i, j);
    }
    assert(i * n + j < n * n) by (nonlinear_arith)
        requires
            0 <= i < n,
            0 <= j < n,
    ;
    assert(0 <= i * n) by (nonlinear_arith)
        requires
            0 <= i,
            0 <= n,
    ;
}

/// Lays out the square matrix with the given diagonal.
fn build_diagonal(diagonal: &Vec<u32>) -> (r: Vec<u32>)
    requires
        diagonal@.len() * diagonal@.len() <= usize::MAX,
    ensures
        r@ == diagonal_matrix(diagonal@),
{
    let n: usize = diagonal.len();
    let mut matrix: Vec<u32> = Vec::new();
    let ghost whole = diagonal_matrix(diagonal@);
    let mut i: usize = 0;
    while i < n
        invariant
            n == diagonal@.len(),
            i <= n,
            whole == diagonal_matrix(diagonal@),
            matrix@.len() == i * n,
            i * n <= whole.len(),
            matrix@ == whole.take(i * n),
        decreases n - i,
    {
        let mut j: usize = 0;
        proof {
            lemma_place(n as int, i as int, 0);
            assert((i + 1) * n == i * n + n) by (nonlinear_arith);
            assert((i + 1) * n <= n * n) by (nonlinear_arith)
                requires
                    i < n,
            ;
        }
        while j < n
            invariant
                n == diagonal@.len(),
                i < n,
                j <= n,
                whole == diagonal_matrix(diagonal@),
                whole.len() == n * n,
                i * n + n <= n * n,
                matrix@.len() == i * n + j,
                matrix@ == whole.take(i * n + j),
            decreases n - j,
        {
            proof {
                lemma_place(n as int, i as int, j as int);
                assert(whole[i * n + j] == if i == j {
                    diagonal@[i as int]
                } else {
                    0
                });
            }
            if i == j {
                matrix.push(diagonal[i]);
            } else {
                matrix.push(0);
            }
            assert(matrix@ =~= whole.take(i * n + j + 1));
            j = j + 1;
        }
        i = i + 1;
    }
    assert(whole.take(n * n) =~= whole);
    matrix
}

impl RetrainArtifact {
    /// Create an artifact from a weight model, with the current time.
    ///
    /// Its categories are the list that the model gives, in the model's order.
    /// `narrow` brings a weight from double to single precision.
    pub fn from_model<M: WeightModel, N: Fn(u64) -> u32>(
        model: &M,
        model_id: &str,
        signals_consumed: usize,
        narrow: &N,
    ) -> (r: Self)
        requires
            model.weights().listing_len * model.weights().listing_len <= usize::MAX,
            forall|weight: u64| call_requires(*narrow, (weight,)),
        ensures
            artifact_of(r, model.weights(), model_id@, signals_consumed, *narrow),
            call_ensures(M::categories, (model,), r.categories),
            r.created_at.seconds >= 0,
            r.created_at.nanos < 1_000_000_000,
    {
        Self::from_model_at(model, model_id, signals_consumed, narrow, utc_now())
    }

    /// Create an artifact from a weight model, with the given time.
    pub fn from_model_at<M: WeightModel, N: Fn(u64) -> u32>(
        model: &M,
        model_id: &str,
        signals_consumed: usize,
        narrow: &N,
        created_at: Timestamp,
    ) -> (r: Self)
        requires
            model.weights().listing_len * model.weights().listing_len <= usize::MAX,
            forall|weight: u64| call_requires(*narrow, (weight,)),
        ensures
            artifact_of(r, model.weights(), model_id@, signals_consumed, *narrow),
            call_ensures(M::categories, (model,), r.categories),
            r.created_at == created_at,
    {
        let categories = model.categories();
        let mut diagonal: Vec<u32> = Vec::new();
        let mut i: usize = 0;
        while i < categories.len()
            invariant
                i <= categories@.len(),
                diagonal@.len() == i,
                forall|weight: u64| call_requires(*narrow, (weight,)),
                forall|k: int|
                    0 <= k < i ==> call_ensures(
                        *narrow,
                        ((model.weights().weight)(categories@[k]@),),
                        #[trigger] diagonal@[k],
                    ),
            decreases categories@.len() - i,
        {
            diagonal.push(narrow(model.adjustment(categories[i].as_str())));
            i = i + 1;
        }
        let weight_matrix = build_diagonal(&diagonal);
        let checksum = checksum_of_matrix(&weight_matrix);
        let r = RetrainArtifact {
            model_id: model_id.to_owned(),
            version: model.version(),
            categories,
            weight_matrix,
            checksum,
            created_at,
            signals_consumed,
        };
        assert(diagonal_matrix(diagonal@) == r.weight_matrix@);
        r
    }

    /// Verify the integrity of this artifact.
    pub fn verify(&self) -> (r: bool)
        ensures
            r == (self.checksum@ == matrix_checksum(self.weight_matrix@)),
    {
        let computed = checksum_of_matrix(&self.weight_matrix);
        computed == self.checksum
    }

    /// The files under `dir` that keep this artifact.
    pub fn paths(&self, dir: &str, path_style: PathStyle) -> (r: ArtifactPaths)
        ensures
            seen_from(
                path_style,
                dir@,
                versioned_file_name(self.model_id@, self.version),
                r.versioned@,
            ),
            seen_from(path_style, dir@, latest_file_name(self.model_id@), r.latest@),
    {
        let mut versioned = self.model_id.clone();
        versioned.append("_v");
        versioned.append(decimal_text(self.version).as_str());
        versioned.append(".json");
        let mut latest = self.model_id.clone();
        latest.append("_latest.json");
        ArtifactPaths {
            versioned: join_path(path_style, dir, versioned.as_str()),
            latest: join_path(path_style, dir, latest.as_str()),
        }
    }

    /// Accepts an artifact that was read back, if it is intact.
    pub fn load(artifact: Self) -> (r: Result<Self, ArtifactError>)
        ensures
            match r {
                Ok(accepted) => accepted == artifact && artifact.checksum@ == matrix_checksum(
                    artifact.weight_matrix@,
                ),
                Err(ArtifactError::Corrupt { model_id, version }) => {
                    &&& artifact.checksum@ != matrix_checksum(artifact.weight_matrix@)
                    &&& model_id == artifact.model_id
                    &&& version == artifact.version
                },
            },
    {
        if artifact.verify() {
            Ok(artifact)
        } else {
            Err(
                ArtifactError::Corrupt { model_id: artifact.model_id, version: artifact.version },
            )
        }
    }
}

/// The name of the file that holds one version of a model.
pub open spec fn versioned_file_name(model_id: Seq<char>, version: u64) -> Seq<char> {
    model_id + "_v"@ + decimal(version as nat) + ".json"@
}

/// The name of the file that holds the latest version of a model.
pub open spec fn latest_file_name(model_id: Seq<char>) -> Seq<char> {
    model_id + "_latest.json"@
}

/// The artifact of a model is intact.
pub proof fn artifacts_are_intact<N: Fn(u64) -> u32>(
    artifact: RetrainArtifact,
    weights: WeightsView,
    model_id: Seq<char>,
    signals_consumed: usize,
    narrow: N,
)
    requires
        artifact_of(artifact, weights, model_id, signals_consumed, narrow),
    ensures
        artifact.checksum@ == matrix_checksum(artifact.weight_matrix@),
{
}

/// The bytes of a word tell the word.
proof fn lemma_word_bytes_are_injective(x: u32, y: u32)
    requires
        word_bytes(x) == word_bytes(y),
    ensures
        x == y,
{
    let (s, t) = (word_bytes(x), word_bytes(y));
    assert(s[0] == t[0] && s[1] == t[1] && s[2] == t[2] && s[3] == t[3]);
    assert(x % 0x100 == y % 0x100);
    assert(x / 0x100 % 0x100 == y / 0x100 % 0x100);
    assert(x / 0x1_0000 % 0x100 == y / 0x1_0000 % 0x100);
    assert(x / 0x100_0000 == y / 0x100_0000);
}

/// What is in front of a word, and the word, can be told from the bytes of
/// both.
proof fn lemma_split_word(s: Seq<u8>, x: u32, t: Seq<u8>, y: u32)
    requires
        s.len() == t.len(),
        s + word_bytes(x) == t + word_bytes(y),
    ensures
        s == t,
        x == y,
{
    let (a, b) = (s + word_bytes(x), t + word_bytes(y));
    let n = s.len() as int;
    assert(s =~= a.take(n));
    assert(t =~= b.take(n));
    assert(word_bytes(x) =~= a.skip(n));
    assert(word_bytes(y) =~= b.skip(n));
    lemma_word_bytes_are_injective(x, y);
}

/// The bytes of a matrix tell its words.
pub proof fn matrix_bytes_are_injective(a: Seq<u32>, b: Seq<u32>)
    requires
        matrix_bytes(a) == matrix_bytes(b),
    ensures
        a == b,
    decreases a.len(),
{
    lemma_matrix_bytes_len(a);
    lemma_matrix_bytes_len(b);
    if a.len() > 0 {
        let (rest_a, rest_b) = (a.drop_last(), b.drop_last());
        lemma_matrix_bytes_len(rest_a);
        lemma_matrix_bytes_len(rest_b);
        lemma_split_word(matrix_bytes(rest_a), a.last(), matrix_bytes(rest_b), b.last());
        matrix_bytes_are_injective(rest_a, rest_b);
        assert(a =~= rest_a.push(a.last()));
        assert(b =~= rest_b.push(b.last()));
    } else {
        assert(a =~= b);
    }
}

/// A word is four bytes.
proof fn lemma_matrix_bytes_len(matrix: Seq<u32>)
    ensures
        matrix_bytes(matrix).len() == 4 * matrix.len(),
    decreases matrix.len(),
{
    if matrix.len() > 0 {
        lemma_matrix_bytes_len(matrix.drop_last());
    }
}

/// A matrix that is not the one that a checksum was made of passes for it only
/// where SHA-256 gives the bytes of both the same digest.
pub proof fn a_changed_matrix_needs_a_collision(made_of: Seq<u32>, found: Seq<u32>)
    requires
        made_of != found,
        matrix_checksum(made_of) == matrix_checksum(found),
    ensures
        matrix_bytes(made_of) != matrix_bytes(found),
        sha256(matrix_bytes(made_of)) == sha256(matrix_bytes(found)),
{
    if matrix_bytes(made_of) == matrix_bytes(found) {
        matrix_bytes_are_injective(made_of, found);
    }
    hex_is_injective(sha256(matrix_bytes(made_of)), sha256(matrix_bytes(found)));
}

/// The entry of a diagonal matrix in row `i` and column `j`.
pub proof fn diagonal_matrix_entry(diagonal: Seq<u32>, i: int, j: int)
    requires
        0 <= i < diagonal.len(),
        0 <= j < diagonal.len(),
    ensures
        0 <= i * diagonal.len() + j < diagonal_matrix(diagonal).len(),
        diagonal_matrix(diagonal)[i * diagonal.len() + j] == if i == j {
            diagonal[i]
        } else {
            0
        },
{
    lemma_place(diagonal.len() as int, i, j);
}

/// Different versions of a model are kept in different files, and none of them
/// in the file of the latest version.
pub proof fn versions_have_files_of_their_own(model_id: Seq<char>, a: u64, b: u64)
    ensures
        versioned_file_name(model_id, a) == versioned_file_name(model_id, b) ==> a == b,
        versioned_file_name(model_id, a) != latest_file_name(model_id),
{
    reveal_strlit("_v");
    reveal_strlit(".json");
    reveal_strlit("_latest.json");
    let n = model_id.len() as int;
    let x = versioned_file_name(model_id, a);
    let y = versioned_file_name(model_id, b);
    if x == y {
        assert(x.subrange(n + 2, x.len() - 5) =~= decimal(a as nat));
        assert(y.subrange(n + 2, y.len() - 5) =~= decimal(b as nat));
        decimal_is_injective(a as nat, b as nat);
    }
    assert(x[n + 1] == 'v');
    assert(latest_file_name(model_id)[n + 1] == 'l');
}

} // verus!
