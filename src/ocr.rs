use vstd::prelude::*;

verus! {

/// The recognised lines that are kept: present and non-empty, in order.
pub open spec fn kept_lines(lines: Seq<Option<String>>) -> Seq<Seq<char>>
    decreases lines.len(),
{
    if lines.len() == 0 {
        Seq::empty()
    } else {
        let rest = kept_lines(lines.drop_last());
        match lines.last() {
            Some(t) => if t@.len() > 0 { rest.push(t@) } else { rest },
            None => rest,
        }
    }
}

/// Lines joined with a newline between each two.
pub open spec fn joined(ls: Seq<Seq<char>>) -> Seq<char>
    decreases ls.len(),
{
    if ls.len() == 0 {
        Seq::empty()
    } else if ls.len() == 1 {
        ls[0]
    } else {
        joined(ls.drop_last()) + seq!['\n'] + ls.last()
    }
}

/// Text of an OCR run: the lines that yielded text, in the order the line
/// grouping produced them, one per line. No lines give the empty text.
pub fn assemble_text(lines: &Vec<Option<String>>) -> (r: String)
    ensures
        r@ == joined(kept_lines(lines@)),
{
    let mut acc = String::new();
    let mut count: usize = 0;
    let mut i: usize = 0;
    while i < lines.len()
        invariant
            i <= lines@.len(),
            acc@ == joined(kept_lines(lines@.subrange(0, i as int))),
            count == kept_lines(lines@.subrange(0, i as int)).len(),
            count <= i,
        decreases lines@.len() - i,
    {
        let ghost prev = lines@.subrange(0, i as int);
        let ghost next = lines@.subrange(0, i + 1);
        assert(next.drop_last() =~= prev);
        match &lines[i] {
            Some(t) => {
                if !t.as_str().is_empty() {
                    let ghost k = kept_lines(prev);
                    assert(k.push(t@).drop_last() =~= k);
                    proof {
                        reveal_strlit("\n");
                    }
                    if count > 0 {
                        acc.append("\n");
                    }
                    acc.append(t.as_str());
                    if count > 0 {
                        assert(acc@ =~= joined(k) + seq!['\n'] + t@);
                    } else {
                        assert(acc@ =~= t@);
                        assert(k.push(t@)[0] == t@);
                    }
                    count = count + 1;
                }
            },
            None => {},
        }
        i = i + 1;
    }
    assert(lines@.subrange(0, lines@.len() as int) =~= lines@);
    acc
}

/// The two models of the OCR pipeline.
#[derive(Debug, Clone, Copy, PartialEq, Eq, Structural)]
pub enum ModelAsset {
    Detection,
    Recognition,
}

pub open spec fn model_file_name(m: ModelAsset) -> Seq<char> {
    match m {
        ModelAsset::Detection => "text-detection.rten"@,
        ModelAsset::Recognition => "text-recognition.rten"@,
    }
}

pub open spec fn model_url(m: ModelAsset) -> Seq<char> {
    match m {
        ModelAsset::Detection => "https://ocrs-models.s3.amazonaws.com/text-detection.rten"@,
        ModelAsset::Recognition => "https://ocrs-models.s3.amazonaws.com/text-recognition.rten"@,
    }
}

impl ModelAsset {
    /// File name of the model inside the data directory.
    pub fn file_name(&self) -> (r: &'static str)
        ensures
            r@ == model_file_name(*self),
    {
        match self {
            ModelAsset::Detection => {
                proof {
                    reveal_strlit("text-detection.rten");
                }
                "text-detection.rten"
            },
            ModelAsset::Recognition => {
                proof {
                    reveal_strlit("text-recognition.rten");
                }
                "text-recognition.rten"
            },
        }
    }

    /// Where the model is fetched from when it is absent. A fetched file is
    /// not checked against a digest; such a check would follow each fetch.
    pub fn url(&self) -> (r: &'static str)
        ensures
            r@ == model_url(*self),
    {
        match self {
            ModelAsset::Detection => {
                proof {
                    reveal_strlit("https://ocrs-models.s3.amazonaws.com/text-detection.rten");
                }
                "https://ocrs-models.s3.amazonaws.com/text-detection.rten"
            },
            ModelAsset::Recognition => {
                proof {
                    reveal_strlit("https://ocrs-models.s3.amazonaws.com/text-recognition.rten");
                }
                "https://ocrs-models.s3.amazonaws.com/text-recognition.rten"
            },
        }
    }
}

/// The models to fetch, detection first, given which are already on disk.
/// Present models are never fetched again.
pub fn missing_models(detection_present: bool, recognition_present: bool) -> (r: Vec<ModelAsset>)
    ensures
        r@ == (if detection_present { Seq::empty() } else { seq![ModelAsset::Detection] }) + (
        if recognition_present {
            Seq::empty()
        } else {
            seq![ModelAsset::Recognition]
        }),
{
    let mut r: Vec<ModelAsset> = Vec::new();
    if !detection_present {
        r.push(ModelAsset::Detection);
    }
    if !recognition_present {
        r.push(ModelAsset::Recognition);
    }
    assert(r@ =~= (if detection_present { Seq::empty() } else { seq![ModelAsset::Detection] }) + (
    if recognition_present {
        Seq::empty()
    } else {
        seq![ModelAsset::Recognition]
    }));
    r
}

} // verus!
