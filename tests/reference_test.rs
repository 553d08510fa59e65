use amarkl::{AmarkReader, AmarkToken, ByteSource};

fn name(s: &str) -> AmarkToken {
    AmarkToken::ItemName(s.as_bytes().to_vec())
}

fn text(s: &str) -> AmarkToken {
    AmarkToken::Text(s.as_bytes().to_vec())
}

/// Reads tokens from `input` and compares them with `expected`, one by one.
fn read_all(input: &[u8], expected: &[AmarkToken]) -> Vec<AmarkToken> {
    let mut aml_reader = AmarkReader::new();
    let mut source = ByteSource::new(input.to_vec());
    let mut got_all = Vec::new();
    for expected_token in expected {
        let (got_token, line) = aml_reader.parse_next_get_cur_line(&mut source);
        let got_token =
            got_token.unwrap_or_else(|e| panic!("Failure while parsing on line {}: {:?}", line, e));
        assert_eq!(
            &got_token, expected_token,
            "Unexpected token! Expected: {:?}, got: {:?} on line {}",
            expected_token, got_token, line
        );
        got_all.push(got_token);
    }
    got_all
}

#[test]
fn reference_holds() {
    let expected = [
        name("TopLevel"),
        AmarkToken::ContainerStart,
        name("Text"),
        AmarkToken::BlockStart,
        text("Hello World"),
        AmarkToken::EmptyLine,
        text("HI!"),
        AmarkToken::BlockEnd,
        name("gb"),
        AmarkToken::BlockStart,
        text("A green box"),
        AmarkToken::BlockEnd,
        name("bb"),
        AmarkToken::BlockStart,
        name("l"),
        AmarkToken::ItemEnd,
        text("A blue box"),
        AmarkToken::EscapeSequence(b'n'),
        text("Text after break"),
        AmarkToken::BlockEnd,
        name("additional"),
        AmarkToken::BlockStart,
        text("Additional text"),
        name("br"),
        AmarkToken::ParamsStart,
        text("3"),
        AmarkToken::ParamsEnd,
        AmarkToken::ItemEnd,
        text("Another additional text"),
        AmarkToken::BlockEnd,
        name("br"),
        AmarkToken::ParamsStart,
        text("5"),
        AmarkToken::ParamsEnd,
        AmarkToken::ItemEnd,
        name("l"),
        AmarkToken::ItemEnd,
        name("repeat"),
        AmarkToken::ParamsStart,
        text("5"),
        AmarkToken::ParamsEnd,
        AmarkToken::BlockStart,
        text("laa"),
        AmarkToken::BlockEnd,
        name("yb"),
        AmarkToken::BlockStart,
        AmarkToken::EscapeSequence(b's'),
        AmarkToken::ParamsStart,
        text("4"),
        AmarkToken::ParamsEnd,
        text("A yellow box"),
        name("bb"),
        AmarkToken::BlockStart,
        text("A blue box in a yellow box"),
        AmarkToken::BlockEnd,
        AmarkToken::BlockEnd,
        name("rb"),
        AmarkToken::BlockStart,
        text("A red box"),
        AmarkToken::EscapeSequence(b'n'),
        AmarkToken::ParamsStart,
        text("4"),
        AmarkToken::ParamsEnd,
        name("bb"),
        AmarkToken::BlockStart,
        text("A blue box in a red box"),
        AmarkToken::BlockEnd,
        text("Text after"),
        AmarkToken::EmptyLine,
        name("boo"),
        AmarkToken::ParamsStart,
        text("hello"),
        AmarkToken::ParamsEnd,
        AmarkToken::BlockStart,
        text("world"),
        AmarkToken::EmptyLine,
        AmarkToken::BlockEnd,
        text("red box"),
        AmarkToken::BlockEnd,
        name("Text"),
        AmarkToken::BlockStart,
        text("Bye World"),
        AmarkToken::BlockEnd,
        AmarkToken::ContainerEnd,
        AmarkToken::End,
    ];
    let input: &[u8] = b"TopLevel[
    Text{
        Hello World

        HI!
    }
    gb{A green box}
    bb{@l; A blue box\\nText after break}
    additional{Additional text
        @br(3);
        Another additional text
    }
    br(5);
    l;
    repeat(5){laa}
    yb{
        \\s(4)A yellow box
        @bb{A blue box in a yellow box}
    }
    rb{
        A red box\\n(4)
        @bb{A blue box in a red box}
        Text after

        @boo(hello){
            world

        }
        red box
    }
    Text{Bye World}
]
";
    let got = read_all(input, &expected);
    assert_eq!(got.len(), expected.len());
}

#[test]
fn functions_test() {
    let expected = [
        name("p"),
        AmarkToken::BlockStart,
        text("hi"),
        AmarkToken::BlockEnd,
        name("br"),
        AmarkToken::ParamsStart,
        text("1"),
        AmarkToken::ParamsEnd,
        AmarkToken::ItemEnd,
        name("p"),
        AmarkToken::BlockStart,
        text("Hello"),
        AmarkToken::BlockEnd,
        name("br"),
        AmarkToken::ParamsStart,
        text("5"),
        AmarkToken::ParamsEnd,
        AmarkToken::ItemEnd,
        name("p"),
        AmarkToken::BlockStart,
        text("Hello"),
        name("br"),
        AmarkToken::ParamsStart,
        text("3"),
        AmarkToken::ParamsEnd,
        AmarkToken::ItemEnd,
        AmarkToken::EmptyLine,
        name("ro"),
        AmarkToken::ParamsStart,
        text("hi,7"),
        AmarkToken::ParamsEnd,
        AmarkToken::BlockStart,
        text("hello"),
        AmarkToken::EmptyLine,
        name("p"),
        AmarkToken::BlockStart,
        text("hi"),
        AmarkToken::EmptyLine,
        name("ri"),
        AmarkToken::ParamsStart,
        text("good day"),
        AmarkToken::ParamsEnd,
        AmarkToken::BlockStart,
        text("bye"),
        AmarkToken::EmptyLine,
        AmarkToken::BlockEnd,
        AmarkToken::BlockEnd,
        AmarkToken::EmptyLine,
        AmarkToken::BlockEnd,
        AmarkToken::EmptyLine,
        text("World"),
        AmarkToken::BlockEnd,
        AmarkToken::End,
    ];
    let input: &[u8] = b"p{hi}
br(1);
p{Hello}
br(5);
p{
    Hello
    @br(3);

    @ro(hi,7){
        hello

        @p{
            hi

            @ri(good day){
                bye

            }
        }

    }

    World
}
";
    let got = read_all(input, &expected);
    assert_eq!(got.len(), expected.len());
}

#[test]
fn large_file_works() {
    let expected = [
        name("TopLevel"),
        AmarkToken::ContainerStart,
        name("Text"),
        AmarkToken::BlockStart,
        text("Hello World"),
        AmarkToken::EmptyLine,
        text("HI!"),
        AmarkToken::BlockEnd,
        name("gb"),
        AmarkToken::BlockStart,
        text("A green box"),
        AmarkToken::BlockEnd,
        name("bb"),
        AmarkToken::BlockStart,
        text("A blue box"),
        AmarkToken::EscapeSequence(b'n'),
        text("Text after break"),
        AmarkToken::BlockEnd,
        name("additional"),
        AmarkToken::BlockStart,
        text("Additional text"),
        AmarkToken::BlockEnd,
        name("yb"),
        AmarkToken::BlockStart,
        AmarkToken::EscapeSequence(b's'),
        AmarkToken::ParamsStart,
        text("4"),
        AmarkToken::ParamsEnd,
        text("A yellow box"),
        name("bb"),
        AmarkToken::BlockStart,
        text("A blue box in a yellow box"),
        AmarkToken::BlockEnd,
        AmarkToken::BlockEnd,
        name("l"),
        AmarkToken::ItemEnd,
        name("br"),
        AmarkToken::ParamsStart,
        text("4"),
        AmarkToken::ParamsEnd,
        AmarkToken::ItemEnd,
        name("rb"),
        AmarkToken::BlockStart,
        text("A red box"),
        AmarkToken::EscapeSequence(b'n'),
        AmarkToken::ParamsStart,
        text("4"),
        AmarkToken::ParamsEnd,
        name("bb"),
        AmarkToken::BlockStart,
        text("A blue box in a red box"),
        AmarkToken::BlockEnd,
        text("Text after"),
        AmarkToken::EmptyLine,
        text("red box"),
        AmarkToken::BlockEnd,
        name("Text"),
        AmarkToken::BlockStart,
        text("Bye World"),
        AmarkToken::BlockEnd,
        name("ro"),
        AmarkToken::ParamsStart,
        text("5"),
        AmarkToken::ParamsEnd,
        AmarkToken::BlockStart,
        text("hello"),
        AmarkToken::EmptyLine,
        name("w"),
        AmarkToken::ItemEnd,
        name("br"),
        AmarkToken::ParamsStart,
        text("6"),
        AmarkToken::ParamsEnd,
        AmarkToken::ItemEnd,
        AmarkToken::BlockEnd,
        name("LargeText"),
        AmarkToken::BlockStart,
        text("Lorem ipsum dolor sit amet, consectetur adipiscing elit, sed do eiusmod tempor incididunt ut labore et dolore magna aliqua. Convallis convallis tellus id interdum velit laoreet id. Vel pretium lectus quam id leo in vitae turpis massa. Egestas fringilla phasellus faucibus scelerisque eleifend donec pretium. Hendrerit gravida rutrum quisque non. Eget mi proin sed libero enim sed faucibus. Mattis molestie a iaculis at. Amet aliquam id diam maecenas ultricies. Elementum tempus egestas sed sed risus pretium quam. Elit pellentesque habitant morbi tristique senectus. Eget mi proin sed libero enim. Urna neque viverra justo nec ultrices dui. Cursus sit amet dictum sit amet justo donec enim diam. Ultricies lacus sed turpis tincidunt. Mi eget mauris pharetra et ultrices neque ornare aenean euismod."),
        AmarkToken::EmptyLine,
        text("Dolor sit amet consectetur adipiscing elit ut. Dui ut ornare lectus sit amet est. Nec tincidunt praesent semper feugiat nibh. Et tortor at risus viverra adipiscing at in tellus. Ante metus dictum at tempor commodo. Posuere morbi leo urna molestie at elementum eu. Turpis in eu mi bibendum neque egestas congue quisque. Placerat duis ultricies lacus sed turpis tincidunt id aliquet. Augue lacus viverra vitae congue eu. Nullam vehicula ipsum a arcu cursus vitae congue mauris. Vivamus arcu felis bibendum ut tristique et egestas quis. Viverra aliquet eget sit amet tellus cras adipiscing enim eu. Dolor morbi non arcu risus quis varius quam. A diam maecenas sed enim ut. Nulla facilisi etiam dignissim diam quis. Aenean vel elit scelerisque mauris pellentesque pulvinar pellentesque habitant morbi. Ac tortor dignissim convallis aenean et tortor at. Nullam eget felis eget nunc lobortis mattis. Adipiscing elit pellentesque habitant morbi tristique senectus et netus. Elementum tempus egestas sed sed risus pretium quam."),
        AmarkToken::EmptyLine,
        text("Odio ut enim blandit volutpat maecenas volutpat blandit aliquam etiam. Pellentesque eu tincidunt tortor aliquam nulla. Euismod in pellentesque massa placerat. Morbi leo urna molestie at elementum eu facilisis sed odio. Et egestas quis ipsum suspendisse ultrices gravida dictum fusce ut. Tellus at urna condimentum mattis. Auctor eu augue ut lectus. Ullamcorper dignissim cras tincidunt lobortis feugiat. Tellus elementum sagittis vitae et leo. Ornare arcu dui vivamus arcu felis bibendum."),
        AmarkToken::EmptyLine,
        text("Ullamcorper morbi tincidunt ornare massa. Magnis dis parturient montes nascetur ridiculus mus mauris vitae ultricies. Egestas quis ipsum suspendisse ultrices gravida dictum. Arcu cursus vitae congue mauris rhoncus aenean vel elit scelerisque. Ornare arcu odio ut sem nulla pharetra diam sit amet. A lacus vestibulum sed arcu non. Quis enim lobortis scelerisque fermentum dui faucibus in. Ultrices in iaculis nunc sed augue lacus viverra vitae. Sit amet mattis vulputate enim nulla aliquet porttitor lacus. Aliquam sem fringilla ut morbi tincidunt augue interdum velit. Adipiscing elit pellentesque habitant morbi tristique senectus et. Molestie at elementum eu facilisis sed. Arcu cursus vitae congue mauris rhoncus aenean vel. Egestas purus viverra accumsan in nisl nisi scelerisque. Nibh mauris cursus mattis molestie a iaculis. Viverra ipsum nunc aliquet bibendum. Erat pellentesque adipiscing commodo elit. Dictum at tempor commodo ullamcorper a lacus vestibulum. Pharetra vel turpis nunc eget lorem dolor sed viverra ipsum. Id eu nisl nunc mi ipsum faucibus vitae."),
        AmarkToken::EmptyLine,
        text("Et odio pellentesque diam volutpat commodo sed egestas. Id velit ut tortor pretium viverra suspendisse. Sem integer vitae justo eget magna fermentum iaculis. Dolor magna eget est lorem ipsum dolor sit. Porta nibh venenatis cras sed felis eget velit aliquet sagittis. Et ligula ullamcorper malesuada proin libero nunc consequat interdum varius. Mauris sit amet massa vitae tortor condimentum lacinia. Adipiscing bibendum est ultricies integer quis auctor elit sed vulputate. Pulvinar neque laoreet suspendisse interdum consectetur libero. Scelerisque fermentum dui faucibus in ornare quam viverra orci. Bibendum at varius vel pharetra vel turpis nunc. Montes nascetur ridiculus mus mauris vitae ultricies leo integer malesuada. Maecenas ultricies mi eget mauris. Eget arcu dictum varius duis at consectetur. Ac tortor vitae purus faucibus ornare. Purus viverra accumsan in nisl nisi scelerisque. Mauris a diam maecenas sed enim ut sem viverra aliquet. Etiam erat velit scelerisque in dictum non. In vitae turpis massa sed. Donec enim diam vulputate ut.  "),
        AmarkToken::BlockEnd,
        name("DeepNesting"),
        AmarkToken::BlockStart,
        text("T0"),
        name("d0"),
        AmarkToken::BlockStart,
        text("T1"),
        name("d1"),
        AmarkToken::BlockStart,
        text("T2"),
        name("d2"),
        AmarkToken::BlockStart,
        text("T3"),
        name("d3"),
        AmarkToken::BlockStart,
        text("T4"),
        name("d4"),
        AmarkToken::BlockStart,
        text("ahahahaha"),
        name("ah"),
        AmarkToken::BlockStart,
        text("Ahahahahah"),
        AmarkToken::BlockEnd,
        text("T5"),
        name("d5"),
        AmarkToken::BlockStart,
        text("T6"),
        name("d6"),
        AmarkToken::BlockStart,
        text("T7"),
        name("d7"),
        AmarkToken::BlockStart,
        name("DD"),
        AmarkToken::BlockStart,
        name("DDD"),
        AmarkToken::BlockStart,
        name("DDDD"),
        AmarkToken::BlockStart,
        text("l;"),
        text("br(4);"),
        name("l"),
        AmarkToken::ItemEnd,
        name("br"),
        AmarkToken::ParamsStart,
        text("4"),
        AmarkToken::ParamsEnd,
        AmarkToken::ItemEnd,
        name("DDDDD"),
        AmarkToken::BlockStart,
        name("DDDDDD"),
        AmarkToken::BlockStart,
        text("aahh thats deep"),
        AmarkToken::BlockEnd,
        AmarkToken::BlockEnd,
        AmarkToken::BlockEnd,
        AmarkToken::BlockEnd,
        AmarkToken::BlockEnd,
        AmarkToken::EmptyLine,
        AmarkToken::BlockEnd,
        AmarkToken::BlockEnd,
        AmarkToken::BlockEnd,
        AmarkToken::BlockEnd,
        AmarkToken::BlockEnd,
        AmarkToken::BlockEnd,
        AmarkToken::BlockEnd,
        AmarkToken::BlockEnd,
        AmarkToken::BlockEnd,
        AmarkToken::ContainerEnd,
        AmarkToken::End,
    ];
    let input: &[u8] = b"TopLevel[
    Text{
        Hello World

        HI!
    }
    gb{A green box}
    bb{A blue box\\nText after break}
    additional{Additional text}
    yb{
        \\s(4)A yellow box
        @bb{A blue box in a yellow box}
    }
    l;
    br(4);
    rb{
        A red box\\n(4)
        @bb{A blue box in a red box}
        Text after

        red box
    }
    Text{Bye World}
    ro(5){
        hello

        @w;
        @br(6);
    }
    LargeText{
        Lorem ipsum dolor sit amet, consectetur adipiscing elit, sed do eiusmod tempor incididunt ut labore et dolore magna aliqua. Convallis convallis tellus id interdum velit laoreet id. Vel pretium lectus quam id leo in vitae turpis massa. Egestas fringilla phasellus faucibus scelerisque eleifend donec pretium. Hendrerit gravida rutrum quisque non. Eget mi proin sed libero enim sed faucibus. Mattis molestie a iaculis at. Amet aliquam id diam maecenas ultricies. Elementum tempus egestas sed sed risus pretium quam. Elit pellentesque habitant morbi tristique senectus. Eget mi proin sed libero enim. Urna neque viverra justo nec ultrices dui. Cursus sit amet dictum sit amet justo donec enim diam. Ultricies lacus sed turpis tincidunt. Mi eget mauris pharetra et ultrices neque ornare aenean euismod.

        Dolor sit amet consectetur adipiscing elit ut. Dui ut ornare lectus sit amet est. Nec tincidunt praesent semper feugiat nibh. Et tortor at risus viverra adipiscing at in tellus. Ante metus dictum at tempor commodo. Posuere morbi leo urna molestie at elementum eu. Turpis in eu mi bibendum neque egestas congue quisque. Placerat duis ultricies lacus sed turpis tincidunt id aliquet. Augue lacus viverra vitae congue eu. Nullam vehicula ipsum a arcu cursus vitae congue mauris. Vivamus arcu felis bibendum ut tristique et egestas quis. Viverra aliquet eget sit amet tellus cras adipiscing enim eu. Dolor morbi non arcu risus quis varius quam. A diam maecenas sed enim ut. Nulla facilisi etiam dignissim diam quis. Aenean vel elit scelerisque mauris pellentesque pulvinar pellentesque habitant morbi. Ac tortor dignissim convallis aenean et tortor at. Nullam eget felis eget nunc lobortis mattis. Adipiscing elit pellentesque habitant morbi tristique senectus et netus. Elementum tempus egestas sed sed risus pretium quam.

        Odio ut enim blandit volutpat maecenas volutpat blandit aliquam etiam. Pellentesque eu tincidunt tortor aliquam nulla. Euismod in pellentesque massa placerat. Morbi leo urna molestie at elementum eu facilisis sed odio. Et egestas quis ipsum suspendisse ultrices gravida dictum fusce ut. Tellus at urna condimentum mattis. Auctor eu augue ut lectus. Ullamcorper dignissim cras tincidunt lobortis feugiat. Tellus elementum sagittis vitae et leo. Ornare arcu dui vivamus arcu felis bibendum.

        Ullamcorper morbi tincidunt ornare massa. Magnis dis parturient montes nascetur ridiculus mus mauris vitae ultricies. Egestas quis ipsum suspendisse ultrices gravida dictum. Arcu cursus vitae congue mauris rhoncus aenean vel elit scelerisque. Ornare arcu odio ut sem nulla pharetra diam sit amet. A lacus vestibulum sed arcu non. Quis enim lobortis scelerisque fermentum dui faucibus in. Ultrices in iaculis nunc sed augue lacus viverra vitae. Sit amet mattis vulputate enim nulla aliquet porttitor lacus. Aliquam sem fringilla ut morbi tincidunt augue interdum velit. Adipiscing elit pellentesque habitant morbi tristique senectus et. Molestie at elementum eu facilisis sed. Arcu cursus vitae congue mauris rhoncus aenean vel. Egestas purus viverra accumsan in nisl nisi scelerisque. Nibh mauris cursus mattis molestie a iaculis. Viverra ipsum nunc aliquet bibendum. Erat pellentesque adipiscing commodo elit. Dictum at tempor commodo ullamcorper a lacus vestibulum. Pharetra vel turpis nunc eget lorem dolor sed viverra ipsum. Id eu nisl nunc mi ipsum faucibus vitae.

        Et odio pellentesque diam volutpat commodo sed egestas. Id velit ut tortor pretium viverra suspendisse. Sem integer vitae justo eget magna fermentum iaculis. Dolor magna eget est lorem ipsum dolor sit. Porta nibh venenatis cras sed felis eget velit aliquet sagittis. Et ligula ullamcorper malesuada proin libero nunc consequat interdum varius. Mauris sit amet massa vitae tortor condimentum lacinia. Adipiscing bibendum est ultricies integer quis auctor elit sed vulputate. Pulvinar neque laoreet suspendisse interdum consectetur libero. Scelerisque fermentum dui faucibus in ornare quam viverra orci. Bibendum at varius vel pharetra vel turpis nunc. Montes nascetur ridiculus mus mauris vitae ultricies leo integer malesuada. Maecenas ultricies mi eget mauris. Eget arcu dictum varius duis at consectetur. Ac tortor vitae purus faucibus ornare. Purus viverra accumsan in nisl nisi scelerisque. Mauris a diam maecenas sed enim ut sem viverra aliquet. Etiam erat velit scelerisque in dictum non. In vitae turpis massa sed. Donec enim diam vulputate ut.  
    }
    DeepNesting{
        T0
        @d0{
            T1
            @d1{
                T2
                @d2{
                    T3
                    @d3{
                        T4
                        @d4{
                            ahahahaha
                            @ah{Ahahahahah}
                            T5
                            @d5{
                                T6
                                @d6{
                                    T7
                                    @d7{
                                        @DD{
                                            @DDD{
                                                @DDDD{
                                                    l;
                                                    br(4);
                                                    @l;
                                                    @br(4);
                                                    @DDDDD{
                                                        @DDDDDD{aahh thats deep}
                                                    }
                                                }
                                            }
                                        }

                                    }
                                }
                            }
                        }
                    }
                }
            }
        }
    }
]
";
    let got = read_all(input, &expected);
    assert_eq!(got.len(), expected.len());
    let block_starts = got.iter().filter(|t| **t == AmarkToken::BlockStart).count();
    let block_ends = got.iter().filter(|t| **t == AmarkToken::BlockEnd).count();
    assert_eq!(block_starts, block_ends);
}

